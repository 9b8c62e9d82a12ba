use vstd::prelude::*;

verus! {

/// The kinds of units a player can own.
#[derive(Clone, Copy, Debug, PartialEq, Eq, Structural)]
pub enum UnitType {
    Settler,
    Infantry,
    Ship,
    Cavalry,
    Elephant,
    Leader,
}

/// The leader as the unit type that a die side can name.
pub const LEADER_UNIT: UnitType = UnitType::Leader;

impl UnitType {
    /// Army units are the land fighters: infantry, cavalry, elephants and leaders.
    pub open spec fn spec_is_army_unit(&self) -> bool {
        *self is Infantry || *self is Cavalry || *self is Elephant || *self is Leader
    }

    /// Military units are army units and ships.
    pub open spec fn spec_is_military(&self) -> bool {
        self.spec_is_army_unit() || *self is Ship
    }

    #[verifier::when_used_as_spec(spec_is_army_unit)]
    pub fn is_army_unit(&self) -> (r: bool)
        ensures
            r == self.spec_is_army_unit(),
    {
        matches!(self, UnitType::Infantry | UnitType::Cavalry | UnitType::Elephant | UnitType::Leader)
    }

    #[verifier::when_used_as_spec(spec_is_military)]
    pub fn is_military(&self) -> (r: bool)
        ensures
            r == self.spec_is_military(),
    {
        !matches!(self, UnitType::Settler)
    }

    pub fn is_ship(&self) -> (r: bool)
        ensures
            r == (*self is Ship),
    {
        matches!(self, UnitType::Ship)
    }

    pub fn is_settler(&self) -> (r: bool)
        ensures
            r == (*self is Settler),
    {
        matches!(self, UnitType::Settler)
    }

    pub fn is_leader(&self) -> (r: bool)
        ensures
            r == (*self is Leader),
    {
        matches!(self, UnitType::Leader)
    }
}

/// How many copies of `t` a sequence of unit types holds.
pub open spec fn seq_count(s: Seq<UnitType>, t: UnitType) -> nat
    decreases s.len(),
{
    if s.len() == 0 {
        0
    } else {
        seq_count(s.drop_last(), t) + if s.last() == t { 1nat } else { 0nat }
    }
}

pub proof fn lemma_seq_count_push(s: Seq<UnitType>, x: UnitType, t: UnitType)
    ensures
        seq_count(s.push(x), t) == seq_count(s, t) + if x == t { 1nat } else { 0nat },
{
    assert(s.push(x).drop_last() =~= s);
}

/// A count of units per unit type.
#[derive(Clone, Copy, Debug, PartialEq, Eq, Structural)]
pub struct Units {
    pub settlers: u8,
    pub infantry: u8,
    pub ships: u8,
    pub cavalry: u8,
    pub elephants: u8,
    pub leaders: u8,
}

impl Units {
    /// The number of units of type `t`.
    pub open spec fn count(&self, t: UnitType) -> u8 {
        match t {
            UnitType::Settler => self.settlers,
            UnitType::Infantry => self.infantry,
            UnitType::Ship => self.ships,
            UnitType::Cavalry => self.cavalry,
            UnitType::Elephant => self.elephants,
            UnitType::Leader => self.leaders,
        }
    }

    /// The total number of units.
    pub open spec fn total(&self) -> nat {
        (self.settlers + self.infantry + self.ships + self.cavalry + self.elephants
            + self.leaders) as nat
    }

    /// `self` with one more unit of type `t`.
    pub open spec fn with_added(self, t: UnitType) -> Units {
        match t {
            UnitType::Settler => Units { settlers: (self.settlers + 1) as u8, ..self },
            UnitType::Infantry => Units { infantry: (self.infantry + 1) as u8, ..self },
            UnitType::Ship => Units { ships: (self.ships + 1) as u8, ..self },
            UnitType::Cavalry => Units { cavalry: (self.cavalry + 1) as u8, ..self },
            UnitType::Elephant => Units { elephants: (self.elephants + 1) as u8, ..self },
            UnitType::Leader => Units { leaders: (self.leaders + 1) as u8, ..self },
        }
    }

    /// `self` with one unit of type `t` less.
    pub open spec fn with_removed(self, t: UnitType) -> Units {
        match t {
            UnitType::Settler => Units { settlers: (self.settlers - 1) as u8, ..self },
            UnitType::Infantry => Units { infantry: (self.infantry - 1) as u8, ..self },
            UnitType::Ship => Units { ships: (self.ships - 1) as u8, ..self },
            UnitType::Cavalry => Units { cavalry: (self.cavalry - 1) as u8, ..self },
            UnitType::Elephant => Units { elephants: (self.elephants - 1) as u8, ..self },
            UnitType::Leader => Units { leaders: (self.leaders - 1) as u8, ..self },
        }
    }

    pub fn new(
        settlers: u8,
        infantry: u8,
        ships: u8,
        cavalry: u8,
        elephants: u8,
        leaders: u8,
    ) -> (r: Units)
        ensures
            r == (Units { settlers, infantry, ships, cavalry, elephants, leaders }),
    {
        Units { settlers, infantry, ships, cavalry, elephants, leaders }
    }

    pub fn empty() -> (r: Units)
        ensures
            forall|t: UnitType| r.count(t) == 0,
            r.total() == 0,
    {
        Units { settlers: 0, infantry: 0, ships: 0, cavalry: 0, elephants: 0, leaders: 0 }
    }

    pub fn get_amount(&self, t: &UnitType) -> (r: u8)
        ensures
            r == self.count(*t),
    {
        match t {
            UnitType::Settler => self.settlers,
            UnitType::Infantry => self.infantry,
            UnitType::Ship => self.ships,
            UnitType::Cavalry => self.cavalry,
            UnitType::Elephant => self.elephants,
            UnitType::Leader => self.leaders,
        }
    }

    pub fn has_unit(&self, t: &UnitType) -> (r: bool)
        ensures
            r == (self.count(*t) > 0),
    {
        self.get_amount(t) > 0
    }

    pub fn has_leader(&self) -> (r: bool)
        ensures
            r == (self.leaders > 0),
    {
        self.leaders > 0
    }

    /// The total number of units.
    pub fn amount(&self) -> (r: u32)
        ensures
            r == self.total(),
    {
        self.settlers as u32 + self.infantry as u32 + self.ships as u32 + self.cavalry as u32
            + self.elephants as u32 + self.leaders as u32
    }

    pub fn is_empty(&self) -> (r: bool)
        ensures
            r == (self.total() == 0),
    {
        self.amount() == 0
    }

    /// Adds one unit of type `t`.
    pub fn add_unit(&mut self, t: &UnitType)
        requires
            old(self).count(*t) < u8::MAX,
        ensures
            *final(self) == old(self).with_added(*t),
            final(self).count(*t) == old(self).count(*t) + 1,
            forall|u: UnitType| u != *t ==> final(self).count(u) == old(self).count(u),
    {
        match t {
            UnitType::Settler => self.settlers = self.settlers + 1,
            UnitType::Infantry => self.infantry = self.infantry + 1,
            UnitType::Ship => self.ships = self.ships + 1,
            UnitType::Cavalry => self.cavalry = self.cavalry + 1,
            UnitType::Elephant => self.elephants = self.elephants + 1,
            UnitType::Leader => self.leaders = self.leaders + 1,
        }
    }

    /// Removes one unit of type `t`.
    pub fn remove_unit(&mut self, t: &UnitType)
        requires
            old(self).count(*t) > 0,
        ensures
            *final(self) == old(self).with_removed(*t),
            final(self).count(*t) == old(self).count(*t) - 1,
            forall|u: UnitType| u != *t ==> final(self).count(u) == old(self).count(u),
    {
        match t {
            UnitType::Settler => self.settlers = self.settlers - 1,
            UnitType::Infantry => self.infantry = self.infantry - 1,
            UnitType::Ship => self.ships = self.ships - 1,
            UnitType::Cavalry => self.cavalry = self.cavalry - 1,
            UnitType::Elephant => self.elephants = self.elephants - 1,
            UnitType::Leader => self.leaders = self.leaders - 1,
        }
    }

    /// One entry per unit, grouped by type.
    pub fn to_vec(&self) -> (r: Vec<UnitType>)
        ensures
            forall|t: UnitType| seq_count(r@, t) == self.count(t),
            r@.len() == self.total(),
    {
        let mut r: Vec<UnitType> = Vec::new();
        let kinds = [
            UnitType::Settler,
            UnitType::Infantry,
            UnitType::Ship,
            UnitType::Cavalry,
            UnitType::Elephant,
            UnitType::Leader,
        ];
        let mut k: usize = 0;
        while k < 6
            invariant
                0 <= k <= 6,
                kinds@ == seq![
                    UnitType::Settler,
                    UnitType::Infantry,
                    UnitType::Ship,
                    UnitType::Cavalry,
                    UnitType::Elephant,
                    UnitType::Leader,
                ],
                forall|j: int| 0 <= j < k ==> seq_count(r@, #[trigger] kinds@[j]) == self.count(kinds@[j]),
                forall|j: int| k <= j < 6 ==> seq_count(r@, #[trigger] kinds@[j]) == 0,
                r@.len() == Self::prefix_total(*self, k as int),
            decreases 6 - k,
        {
            let t = kinds[k];
            let n = self.get_amount(&t);
            let mut i: u8 = 0;
            while i < n
                invariant
                    0 <= i <= n,
                    n == self.count(t),
                    t == kinds@[k as int],
                    k < 6,
                    kinds@ == seq![
                        UnitType::Settler,
                        UnitType::Infantry,
                        UnitType::Ship,
                        UnitType::Cavalry,
                        UnitType::Elephant,
                        UnitType::Leader,
                    ],
                    forall|j: int| 0 <= j < k ==> seq_count(r@, #[trigger] kinds@[j]) == self.count(kinds@[j]),
                    forall|j: int| k < j < 6 ==> seq_count(r@, #[trigger] kinds@[j]) == 0,
                    seq_count(r@, t) == i,
                    r@.len() == Self::prefix_total(*self, k as int) + i,
                decreases n - i,
            {
                proof {
                    assert forall|u: UnitType| seq_count(r@.push(t), u) == seq_count(r@, u) + if t == u { 1nat } else { 0nat } by {
                        lemma_seq_count_push(r@, t, u);
                    }
                }
                r.push(t);
                i = i + 1;
            }
            k = k + 1;
        }
        proof {
            assert forall|t: UnitType| seq_count(r@, t) == self.count(t) by {
                match t {
                    UnitType::Settler => assert(kinds@[0] == t),
                    UnitType::Infantry => assert(kinds@[1] == t),
                    UnitType::Ship => assert(kinds@[2] == t),
                    UnitType::Cavalry => assert(kinds@[3] == t),
                    UnitType::Elephant => assert(kinds@[4] == t),
                    UnitType::Leader => assert(kinds@[5] == t),
                }
            }
        }
        r
    }

    /// The number of units of the first `k` types in the order of `to_vec`.
    pub open spec fn prefix_total(u: Units, k: int) -> nat {
        (if k > 0 { u.settlers as nat } else { 0nat }) + (if k > 1 { u.infantry as nat } else { 0nat })
            + (if k > 2 { u.ships as nat } else { 0nat }) + (if k > 3 { u.cavalry as nat } else { 0nat })
            + (if k > 4 { u.elephants as nat } else { 0nat }) + (if k > 5 { u.leaders as nat } else { 0nat })
    }

    /// The counts of a sequence of unit types.
    pub open spec fn spec_from_types(s: Seq<UnitType>) -> Units {
        Units {
            settlers: seq_count(s, UnitType::Settler) as u8,
            infantry: seq_count(s, UnitType::Infantry) as u8,
            ships: seq_count(s, UnitType::Ship) as u8,
            cavalry: seq_count(s, UnitType::Cavalry) as u8,
            elephants: seq_count(s, UnitType::Elephant) as u8,
            leaders: seq_count(s, UnitType::Leader) as u8,
        }
    }

    /// Counts the given unit types.
    pub fn from_types(types: &[UnitType]) -> (r: Units)
        requires
            forall|t: UnitType| seq_count(types@, t) < 256,
        ensures
            forall|t: UnitType| r.count(t) == seq_count(types@, t),
            r == Self::spec_from_types(types@),
    {
        let mut r = Units::empty();
        let mut i: usize = 0;
        while i < types.len()
            invariant
                0 <= i <= types@.len(),
                forall|t: UnitType| seq_count(types@, t) < 256,
                forall|t: UnitType| r.count(t) == seq_count(types@.take(i as int), t),
            decreases types@.len() - i,
        {
            let t = types[i];
            proof {
                assert(types@.take(i as int + 1) =~= types@.take(i as int).push(t));
                assert forall|u: UnitType| seq_count(types@.take(i as int + 1), u) == seq_count(types@.take(i as int), u) + if t == u { 1nat } else { 0nat } by {
                    lemma_seq_count_push(types@.take(i as int), t, u);
                }
                lemma_seq_count_prefix_bound(types@, i as int + 1, t);
            }
            r.add_unit(&t);
            i = i + 1;
        }
        proof {
            assert(types@.take(types@.len() as int) =~= types@);
            assert(r.count(UnitType::Settler) == seq_count(types@, UnitType::Settler));
            assert(r.count(UnitType::Infantry) == seq_count(types@, UnitType::Infantry));
            assert(r.count(UnitType::Ship) == seq_count(types@, UnitType::Ship));
            assert(r.count(UnitType::Cavalry) == seq_count(types@, UnitType::Cavalry));
            assert(r.count(UnitType::Elephant) == seq_count(types@, UnitType::Elephant));
            assert(r.count(UnitType::Leader) == seq_count(types@, UnitType::Leader));
        }
        r
    }
}

/// A sequence holds no more copies of a type than elements.
pub proof fn lemma_seq_count_le_len(s: Seq<UnitType>, t: UnitType)
    ensures
        seq_count(s, t) <= s.len(),
    decreases s.len(),
{
    if s.len() > 0 {
        lemma_seq_count_le_len(s.drop_last(), t);
    }
}

/// Short sequences can be counted in a `Units`.
pub proof fn lemma_from_types_fits(s: Seq<UnitType>)
    requires
        s.len() < 256,
    ensures
        forall|t: UnitType| seq_count(s, t) < 256,
{
    assert forall|t: UnitType| seq_count(s, t) < 256 by {
        lemma_seq_count_le_len(s, t);
    }
}

/// A prefix never holds more copies than the whole sequence.
pub proof fn lemma_seq_count_prefix_bound(s: Seq<UnitType>, n: int, t: UnitType)
    requires
        0 <= n <= s.len(),
    ensures
        seq_count(s.take(n), t) <= seq_count(s, t),
    decreases s.len(),
{
    if n < s.len() {
        assert(s.drop_last().take(n) =~= s.take(n));
        lemma_seq_count_prefix_bound(s.drop_last(), n, t);
    } else {
        assert(s.take(n) =~= s);
    }
}

/// Removing a unit just added gives back the units before.
pub proof fn lemma_add_then_remove(u: Units, t: UnitType)
    requires
        u.count(t) < u8::MAX,
    ensures
        u.with_added(t).with_removed(t) == u,
{
}

/// Counting the unit types that `to_vec` lists gives back the units listed.
pub proof fn lemma_list_then_count(u: Units, s: Seq<UnitType>)
    requires
        forall|t: UnitType| seq_count(s, t) == u.count(t),
    ensures
        Units::spec_from_types(s) == u,
{
    assert(seq_count(s, UnitType::Settler) == u.settlers);
    assert(seq_count(s, UnitType::Infantry) == u.infantry);
    assert(seq_count(s, UnitType::Ship) == u.ships);
    assert(seq_count(s, UnitType::Cavalry) == u.cavalry);
    assert(seq_count(s, UnitType::Elephant) == u.elephants);
    assert(seq_count(s, UnitType::Leader) == u.leaders);
}

} // verus!
