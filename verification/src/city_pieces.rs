use vstd::prelude::*;

use crate::wonder::Wonder;

verus! {

/// The buildings a city can hold, one of each kind.
#[derive(Clone, Copy, Debug, PartialEq, Eq, Structural)]
pub enum Building {
    Academy,
    Market,
    Obelisk,
    Observatory,
    Fortress,
    Port,
    Temple,
}

/// All buildings, in their fixed order.
pub open spec fn all_buildings() -> Seq<Building> {
    seq![
        Building::Academy,
        Building::Market,
        Building::Obelisk,
        Building::Observatory,
        Building::Fortress,
        Building::Port,
        Building::Temple,
    ]
}

impl Building {
    pub fn all() -> (v: Vec<Building>)
        ensures
            v@ == all_buildings(),
    {
        vec![
            Building::Academy,
            Building::Market,
            Building::Obelisk,
            Building::Observatory,
            Building::Fortress,
            Building::Port,
            Building::Temple,
        ]
    }

    pub open spec fn spec_name(self) -> Seq<char> {
        match self {
            Building::Academy => "Academy"@,
            Building::Market => "Market"@,
            Building::Obelisk => "Obelisk"@,
            Building::Observatory => "Observatory"@,
            Building::Fortress => "Fortress"@,
            Building::Port => "Port"@,
            Building::Temple => "Temple"@,
        }
    }

    pub fn name(&self) -> (r: &'static str)
        ensures
            r@ == self.spec_name(),
    {
        match self {
            Building::Academy => "Academy",
            Building::Market => "Market",
            Building::Obelisk => "Obelisk",
            Building::Observatory => "Observatory",
            Building::Fortress => "Fortress",
            Building::Port => "Port",
            Building::Temple => "Temple",
        }
    }
}

/// The pieces standing in a city: who owns each building, and the wonders.
#[derive(Clone, Debug)]
pub struct CityPieces {
    pub academy: Option<usize>,
    pub market: Option<usize>,
    pub obelisk: Option<usize>,
    pub observatory: Option<usize>,
    pub fortress: Option<usize>,
    pub port: Option<usize>,
    pub temple: Option<usize>,
    pub wonders: Vec<Wonder>,
}

/// The stored form of `CityPieces`.
#[derive(Clone, Debug)]
pub struct CityPiecesData {
    pub academy: Option<usize>,
    pub market: Option<usize>,
    pub obelisk: Option<usize>,
    pub observatory: Option<usize>,
    pub fortress: Option<usize>,
    pub port: Option<usize>,
    pub temple: Option<usize>,
    pub wonders: Vec<Wonder>,
}

/// `Some(b)` when `b` stands and its owner matches `owned_by` (any owner for `None`).
pub open spec fn owner_matches(owner: Option<usize>, owned_by: Option<usize>) -> bool {
    match owner {
        Some(o) => match owned_by {
            Some(want) => o == want,
            None => true,
        },
        None => false,
    }
}

pub open spec fn pick(b: Building, owner: Option<usize>, owned_by: Option<usize>) -> Seq<Building> {
    if owner_matches(owner, owned_by) { seq![b] } else { seq![] }
}

/// `d` is the stored form of `p`: the same owner of every building and the same wonders.
pub open spec fn pieces_stored(p: CityPieces, d: CityPiecesData) -> bool {
    &&& p.academy == d.academy
    &&& p.market == d.market
    &&& p.obelisk == d.obelisk
    &&& p.observatory == d.observatory
    &&& p.fortress == d.fortress
    &&& p.port == d.port
    &&& p.temple == d.temple
    &&& p.wonders@ == d.wonders@
}

/// Pieces stored and restored again are the pieces that were stored.
pub proof fn lemma_pieces_round_trip(p: CityPieces, d: CityPiecesData, r: CityPieces)
    requires
        pieces_stored(p, d),
        pieces_stored(r, d),
    ensures
        forall|b: Building| #[trigger] r.owner(b) == p.owner(b),
        r.wonders@ == p.wonders@,
        r.spec_amount() == p.spec_amount(),
{
    assert forall|o: Option<usize>| #[trigger] r.spec_buildings(o) == p.spec_buildings(o) by {}
}

impl CityPieces {
    /// The owner of building `b`, if it stands.
    pub open spec fn owner(&self, b: Building) -> Option<usize> {
        match b {
            Building::Academy => self.academy,
            Building::Market => self.market,
            Building::Obelisk => self.obelisk,
            Building::Observatory => self.observatory,
            Building::Fortress => self.fortress,
            Building::Port => self.port,
            Building::Temple => self.temple,
        }
    }

    /// The standing buildings whose owner matches `owned_by`, in the order of `all_buildings`.
    pub open spec fn spec_buildings(&self, owned_by: Option<usize>) -> Seq<Building> {
        pick(Building::Academy, self.academy, owned_by)
            + pick(Building::Market, self.market, owned_by)
            + pick(Building::Obelisk, self.obelisk, owned_by)
            + pick(Building::Observatory, self.observatory, owned_by)
            + pick(Building::Fortress, self.fortress, owned_by)
            + pick(Building::Port, self.port, owned_by)
            + pick(Building::Temple, self.temple, owned_by)
    }

    /// The number of pieces: standing buildings plus wonders.
    pub open spec fn spec_amount(&self) -> nat {
        self.spec_buildings(None).len() + self.wonders@.len()
    }

    /// The wonder list is short enough to count pieces in a `usize`.
    pub open spec fn countable(&self) -> bool {
        self.wonders@.len() + 16 <= usize::MAX
    }

    /// `self` with the owner of `b` replaced by `owner`.
    pub open spec fn with_owner(self, b: Building, owner: Option<usize>) -> CityPieces {
        match b {
            Building::Academy => CityPieces { academy: owner, ..self },
            Building::Market => CityPieces { market: owner, ..self },
            Building::Obelisk => CityPieces { obelisk: owner, ..self },
            Building::Observatory => CityPieces { observatory: owner, ..self },
            Building::Fortress => CityPieces { fortress: owner, ..self },
            Building::Port => CityPieces { port: owner, ..self },
            Building::Temple => CityPieces { temple: owner, ..self },
        }
    }

    pub fn empty() -> (r: CityPieces)
        ensures
            forall|b: Building| r.owner(b) is None,
            r.wonders@.len() == 0,
    {
        CityPieces {
            academy: None,
            market: None,
            obelisk: None,
            observatory: None,
            fortress: None,
            port: None,
            temple: None,
            wonders: Vec::new(),
        }
    }

    pub fn from_data(data: &CityPiecesData) -> (r: CityPieces)
        ensures
            pieces_stored(r, *data),
    {
        CityPieces {
            academy: data.academy,
            market: data.market,
            obelisk: data.obelisk,
            observatory: data.observatory,
            fortress: data.fortress,
            port: data.port,
            temple: data.temple,
            wonders: data.wonders.clone(),
        }
    }

    pub fn data(self) -> (r: CityPiecesData)
        ensures
            pieces_stored(self, r),
    {
        CityPiecesData {
            academy: self.academy,
            market: self.market,
            obelisk: self.obelisk,
            observatory: self.observatory,
            fortress: self.fortress,
            port: self.port,
            temple: self.temple,
            wonders: self.wonders,
        }
    }

    pub fn cloned_data(&self) -> (r: CityPiecesData)
        ensures
            pieces_stored(*self, r),
    {
        CityPiecesData {
            academy: self.academy,
            market: self.market,
            obelisk: self.obelisk,
            observatory: self.observatory,
            fortress: self.fortress,
            port: self.port,
            temple: self.temple,
            wonders: self.wonders.clone(),
        }
    }

    pub fn can_add_building(&self, building: Building) -> (r: bool)
        ensures
            r == (self.owner(building) is None),
    {
        match building {
            Building::Academy => self.academy.is_none(),
            Building::Market => self.market.is_none(),
            Building::Obelisk => self.obelisk.is_none(),
            Building::Observatory => self.observatory.is_none(),
            Building::Fortress => self.fortress.is_none(),
            Building::Port => self.port.is_none(),
            Building::Temple => self.temple.is_none(),
        }
    }

    pub fn set_building(&mut self, building: Building, player_index: usize)
        ensures
            *final(self) == old(self).with_owner(building, Some(player_index)),
            final(self).owner(building) == Some(player_index),
            forall|b: Building| b != building ==> final(self).owner(b) == old(self).owner(b),
            final(self).wonders == old(self).wonders,
    {
        match building {
            Building::Academy => self.academy = Some(player_index),
            Building::Market => self.market = Some(player_index),
            Building::Obelisk => self.obelisk = Some(player_index),
            Building::Observatory => self.observatory = Some(player_index),
            Building::Fortress => self.fortress = Some(player_index),
            Building::Port => self.port = Some(player_index),
            Building::Temple => self.temple = Some(player_index),
        }
    }

    pub fn remove_building(&mut self, building: Building)
        ensures
            *final(self) == old(self).with_owner(building, None),
            final(self).owner(building) is None,
            forall|b: Building| b != building ==> final(self).owner(b) == old(self).owner(b),
            final(self).wonders == old(self).wonders,
    {
        match building {
            Building::Academy => self.academy = None,
            Building::Market => self.market = None,
            Building::Obelisk => self.obelisk = None,
            Building::Observatory => self.observatory = None,
            Building::Fortress => self.fortress = None,
            Building::Port => self.port = None,
            Building::Temple => self.temple = None,
        }
    }

    pub fn building_owner(&self, building: Building) -> (r: Option<usize>)
        ensures
            r == self.owner(building),
    {
        match building {
            Building::Academy => self.academy,
            Building::Market => self.market,
            Building::Obelisk => self.obelisk,
            Building::Observatory => self.observatory,
            Building::Fortress => self.fortress,
            Building::Port => self.port,
            Building::Temple => self.temple,
        }
    }

    pub fn building_owners(&self) -> (r: Vec<(Building, Option<usize>)>)
        ensures
            r@.len() == 7,
            forall|i: int| 0 <= i < 7 ==> (#[trigger] r@[i]).0 == all_buildings()[i] && r@[i].1 == self.owner(all_buildings()[i]),
    {
        vec![
            (Building::Academy, self.academy),
            (Building::Market, self.market),
            (Building::Obelisk, self.obelisk),
            (Building::Observatory, self.observatory),
            (Building::Fortress, self.fortress),
            (Building::Port, self.port),
            (Building::Temple, self.temple),
        ]
    }

    /// The standing buildings, limited to those of one owner when `owned_by` is given.
    pub fn buildings(&self, owned_by: Option<usize>) -> (r: Vec<Building>)
        ensures
            r@ == self.spec_buildings(owned_by),
    {
        let mut r: Vec<Building> = Vec::new();
        let owners = self.building_owners();
        let ghost parts = seq![
            pick(Building::Academy, self.academy, owned_by),
            pick(Building::Market, self.market, owned_by),
            pick(Building::Obelisk, self.obelisk, owned_by),
            pick(Building::Observatory, self.observatory, owned_by),
            pick(Building::Fortress, self.fortress, owned_by),
            pick(Building::Port, self.port, owned_by),
            pick(Building::Temple, self.temple, owned_by)
        ];
        let mut i: usize = 0;
        while i < 7
            invariant
                0 <= i <= 7,
                owners@.len() == 7,
                forall|k: int| 0 <= k < 7 ==> (#[trigger] owners@[k]).0 == all_buildings()[k] && owners@[k].1 == self.owner(all_buildings()[k]),
                parts.len() == 7,
                forall|k: int| 0 <= k < 7 ==> #[trigger] parts[k] == pick(all_buildings()[k], self.owner(all_buildings()[k]), owned_by),
                r@ == Self::concat_prefix(parts, i as int),
            decreases 7 - i,
        {
            let (b, owner) = owners[i];
            let keep = match owner {
                Some(o) => match owned_by {
                    Some(want) => o == want,
                    None => true,
                },
                None => false,
            };
            if keep {
                r.push(b);
            }
            proof {
                assert(Self::concat_prefix(parts, i as int + 1) == Self::concat_prefix(parts, i as int) + parts[i as int]);
                assert(r@ =~= Self::concat_prefix(parts, i as int + 1));
            }
            i = i + 1;
        }
        proof {
            reveal_with_fuel(CityPieces::concat_prefix, 8);
            assert(Self::concat_prefix(parts, 7) =~= parts[0] + parts[1] + parts[2] + parts[3] + parts[4] + parts[5] + parts[6]);
            assert(Self::concat_prefix(parts, 7) =~= self.spec_buildings(owned_by));
        }
        r
    }

    /// The concatenation of the first `n` parts.
    pub open spec fn concat_prefix(parts: Seq<Seq<Building>>, n: int) -> Seq<Building>
        decreases n,
    {
        if n <= 0 {
            seq![]
        } else {
            Self::concat_prefix(parts, n - 1) + parts[n - 1]
        }
    }

    /// The number of pieces: standing buildings plus wonders.
    pub fn amount(&self) -> (r: usize)
        requires
            self.countable(),
        ensures
            r == self.spec_amount(),
    {
        let b = self.buildings(None);
        proof {
            lemma_buildings_len(*self, None);
        }
        b.len() + self.wonders.len()
    }
}

/// At most seven buildings stand in a city.
pub proof fn lemma_buildings_len(p: CityPieces, owned_by: Option<usize>)
    ensures
        p.spec_buildings(owned_by).len() <= 7,
{
}

impl DestroyedStructuresData {
    /// Nothing has been destroyed.
    pub open spec fn spec_is_empty(&self) -> bool {
        &&& self.pieces.academy is None
        &&& self.pieces.market is None
        &&& self.pieces.obelisk is None
        &&& self.pieces.observatory is None
        &&& self.pieces.fortress is None
        &&& self.pieces.port is None
        &&& self.pieces.temple is None
        &&& self.pieces.wonders@.len() == 0
        &&& self.cities == 0
    }

    pub fn is_empty(&self) -> (r: bool)
        ensures
            r == self.spec_is_empty(),
    {
        self.pieces.academy.is_none() && self.pieces.market.is_none()
            && self.pieces.obelisk.is_none() && self.pieces.observatory.is_none()
            && self.pieces.fortress.is_none() && self.pieces.port.is_none()
            && self.pieces.temple.is_none() && self.pieces.wonders.len() == 0 && self.cities == 0
    }
}

/// Counts of destroyed buildings (stored in the owner slots) and razed cities.
#[derive(Clone, Debug)]
pub struct DestroyedStructures {
    pub pieces: CityPieces,
    pub cities: u8,
}

/// The stored form of `DestroyedStructures`.
#[derive(Clone, Debug)]
pub struct DestroyedStructuresData {
    pub pieces: CityPiecesData,
    pub cities: u8,
}

impl DestroyedStructures {
    /// How many buildings of kind `b` were destroyed.
    pub open spec fn count(&self, b: Building) -> nat {
        match self.pieces.owner(b) {
            Some(n) => n as nat,
            None => 0,
        }
    }

    pub fn new() -> (r: DestroyedStructures)
        ensures
            forall|b: Building| r.count(b) == 0,
            forall|b: Building| r.pieces.owner(b) is None,
            r.pieces.wonders@.len() == 0,
            r.cities == 0,
    {
        DestroyedStructures { pieces: CityPieces::empty(), cities: 0 }
    }

    pub fn data(self) -> (r: DestroyedStructuresData)
        ensures
            r.cities == self.cities,
            pieces_stored(self.pieces, r.pieces),
    {
        let cities = self.cities;
        DestroyedStructuresData { pieces: self.pieces.data(), cities }
    }

    pub fn from_data(data: &DestroyedStructuresData) -> (r: DestroyedStructures)
        ensures
            r.cities == data.cities,
            pieces_stored(r.pieces, data.pieces),
    {
        DestroyedStructures { pieces: CityPieces::from_data(&data.pieces), cities: data.cities }
    }

    pub fn cloned_data(&self) -> (r: DestroyedStructuresData)
        ensures
            r.cities == self.cities,
            pieces_stored(self.pieces, r.pieces),
    {
        DestroyedStructuresData { pieces: self.pieces.cloned_data(), cities: self.cities }
    }

    /// Records one more destroyed building of kind `building`.
    pub fn add_building(&mut self, building: Building)
        requires
            old(self).count(building) < usize::MAX,
        ensures
            final(self).count(building) == old(self).count(building) + 1,
            forall|b: Building| b != building ==> final(self).count(b) == old(self).count(b),
            final(self).cities == old(self).cities,
            final(self).pieces.wonders == old(self).pieces.wonders,
    {
        let n = self.get_building(building);
        self.pieces.set_building(building, n + 1);
    }

    /// How many buildings of kind `building` were destroyed.
    pub fn get_building(&self, building: Building) -> (r: usize)
        ensures
            r == self.count(building),
    {
        match self.pieces.building_owner(building) {
            Some(n) => n,
            None => 0,
        }
    }
}

/// Nothing destroyed is stored as empty: the stored form of fresh destroyed structures (no
/// building counted, no wonder, no city) is empty.
pub proof fn lemma_fresh_destroyed_is_empty(s: DestroyedStructures, d: DestroyedStructuresData)
    requires
        forall|b: Building| s.pieces.owner(b) is None,
        s.pieces.wonders@.len() == 0,
        s.cities == 0,
        d.cities == s.cities,
        pieces_stored(s.pieces, d.pieces),
    ensures
        d.spec_is_empty(),
{
    assert(s.pieces.owner(Building::Academy) is None);
    assert(s.pieces.owner(Building::Market) is None);
    assert(s.pieces.owner(Building::Obelisk) is None);
    assert(s.pieces.owner(Building::Observatory) is None);
    assert(s.pieces.owner(Building::Fortress) is None);
    assert(s.pieces.owner(Building::Port) is None);
    assert(s.pieces.owner(Building::Temple) is None);
}

/// Once a building has been counted as destroyed, the stored form is no longer empty.
pub proof fn lemma_added_building_not_empty(
    before: DestroyedStructures,
    after: DestroyedStructures,
    b: Building,
    d: DestroyedStructuresData,
)
    requires
        after.count(b) == before.count(b) + 1,
        d.cities == after.cities,
        pieces_stored(after.pieces, d.pieces),
    ensures
        !d.spec_is_empty(),
{
    assert(after.pieces.owner(b) is Some);
}

} // verus!
