use vstd::prelude::*;

verus! {

/// A collection of the seven resource kinds of the game.
#[derive(Clone, Copy, Debug, PartialEq, Eq, Structural)]
pub struct ResourcePile {
    pub food: u8,
    pub wood: u8,
    pub ore: u8,
    pub ideas: u8,
    pub gold: u8,
    pub mood_tokens: u8,
    pub culture_tokens: u8,
}

/// A pile with every amount zero.
pub open spec fn empty_pile() -> ResourcePile {
    ResourcePile { food: 0, wood: 0, ore: 0, ideas: 0, gold: 0, mood_tokens: 0, culture_tokens: 0 }
}

impl ResourcePile {
    /// The sum of all amounts.
    pub open spec fn total(&self) -> nat {
        (self.food + self.wood + self.ore + self.ideas + self.gold + self.mood_tokens
            + self.culture_tokens) as nat
    }

    /// Whether adding `other` keeps every amount within `u8`.
    pub open spec fn can_add(&self, other: &ResourcePile) -> bool {
        &&& self.food + other.food <= u8::MAX
        &&& self.wood + other.wood <= u8::MAX
        &&& self.ore + other.ore <= u8::MAX
        &&& self.ideas + other.ideas <= u8::MAX
        &&& self.gold + other.gold <= u8::MAX
        &&& self.mood_tokens + other.mood_tokens <= u8::MAX
        &&& self.culture_tokens + other.culture_tokens <= u8::MAX
    }

    /// The amount-wise sum of two piles.
    pub open spec fn spec_add(&self, other: &ResourcePile) -> ResourcePile {
        ResourcePile {
            food: (self.food + other.food) as u8,
            wood: (self.wood + other.wood) as u8,
            ore: (self.ore + other.ore) as u8,
            ideas: (self.ideas + other.ideas) as u8,
            gold: (self.gold + other.gold) as u8,
            mood_tokens: (self.mood_tokens + other.mood_tokens) as u8,
            culture_tokens: (self.culture_tokens + other.culture_tokens) as u8,
        }
    }

    /// Whether multiplying by `n` keeps every amount within `u8`.
    pub open spec fn can_times(&self, n: u8) -> bool {
        &&& self.food * n <= u8::MAX
        &&& self.wood * n <= u8::MAX
        &&& self.ore * n <= u8::MAX
        &&& self.ideas * n <= u8::MAX
        &&& self.gold * n <= u8::MAX
        &&& self.mood_tokens * n <= u8::MAX
        &&& self.culture_tokens * n <= u8::MAX
    }

    /// Every amount multiplied by `n`.
    pub open spec fn spec_times(&self, n: u8) -> ResourcePile {
        ResourcePile {
            food: (self.food * n) as u8,
            wood: (self.wood * n) as u8,
            ore: (self.ore * n) as u8,
            ideas: (self.ideas * n) as u8,
            gold: (self.gold * n) as u8,
            mood_tokens: (self.mood_tokens * n) as u8,
            culture_tokens: (self.culture_tokens * n) as u8,
        }
    }

    pub fn new(
        food: u8,
        wood: u8,
        ore: u8,
        ideas: u8,
        gold: u8,
        mood_tokens: u8,
        culture_tokens: u8,
    ) -> (r: ResourcePile)
        ensures
            r == (ResourcePile { food, wood, ore, ideas, gold, mood_tokens, culture_tokens }),
    {
        ResourcePile { food, wood, ore, ideas, gold, mood_tokens, culture_tokens }
    }

    pub fn empty() -> (r: ResourcePile)
        ensures
            r == empty_pile(),
    {
        ResourcePile::new(0, 0, 0, 0, 0, 0, 0)
    }

    pub fn food(amount: u8) -> (r: ResourcePile)
        ensures
            r == (ResourcePile { food: amount, ..empty_pile() }),
    {
        ResourcePile::new(amount, 0, 0, 0, 0, 0, 0)
    }

    pub fn wood(amount: u8) -> (r: ResourcePile)
        ensures
            r == (ResourcePile { wood: amount, ..empty_pile() }),
    {
        ResourcePile::new(0, amount, 0, 0, 0, 0, 0)
    }

    pub fn ore(amount: u8) -> (r: ResourcePile)
        ensures
            r == (ResourcePile { ore: amount, ..empty_pile() }),
    {
        ResourcePile::new(0, 0, amount, 0, 0, 0, 0)
    }

    pub fn ideas(amount: u8) -> (r: ResourcePile)
        ensures
            r == (ResourcePile { ideas: amount, ..empty_pile() }),
    {
        ResourcePile::new(0, 0, 0, amount, 0, 0, 0)
    }

    pub fn gold(amount: u8) -> (r: ResourcePile)
        ensures
            r == (ResourcePile { gold: amount, ..empty_pile() }),
    {
        ResourcePile::new(0, 0, 0, 0, amount, 0, 0)
    }

    pub fn mood_tokens(amount: u8) -> (r: ResourcePile)
        ensures
            r == (ResourcePile { mood_tokens: amount, ..empty_pile() }),
    {
        ResourcePile::new(0, 0, 0, 0, 0, amount, 0)
    }

    pub fn culture_tokens(amount: u8) -> (r: ResourcePile)
        ensures
            r == (ResourcePile { culture_tokens: amount, ..empty_pile() }),
    {
        ResourcePile::new(0, 0, 0, 0, 0, 0, amount)
    }

    /// The sum of all amounts.
    pub fn amount(&self) -> (r: u32)
        ensures
            r == self.total(),
    {
        self.food as u32 + self.wood as u32 + self.ore as u32 + self.ideas as u32
            + self.gold as u32 + self.mood_tokens as u32 + self.culture_tokens as u32
    }

    pub fn is_empty(&self) -> (r: bool)
        ensures
            r == (*self == empty_pile()),
    {
        self.amount() == 0
    }

    /// The amount-wise sum of two piles.
    pub fn add(&self, other: &ResourcePile) -> (r: ResourcePile)
        requires
            self.can_add(other),
        ensures
            r == self.spec_add(other),
    {
        ResourcePile {
            food: self.food + other.food,
            wood: self.wood + other.wood,
            ore: self.ore + other.ore,
            ideas: self.ideas + other.ideas,
            gold: self.gold + other.gold,
            mood_tokens: self.mood_tokens + other.mood_tokens,
            culture_tokens: self.culture_tokens + other.culture_tokens,
        }
    }

    /// Every amount multiplied by `n`.
    pub fn times(&self, n: u8) -> (r: ResourcePile)
        requires
            self.can_times(n),
        ensures
            r == self.spec_times(n),
    {
        ResourcePile {
            food: self.food * n,
            wood: self.wood * n,
            ore: self.ore * n,
            ideas: self.ideas * n,
            gold: self.gold * n,
            mood_tokens: self.mood_tokens * n,
            culture_tokens: self.culture_tokens * n,
        }
    }
}

/// Adding the empty pile changes nothing.
pub proof fn lemma_add_empty(p: ResourcePile)
    ensures
        p.can_add(&empty_pile()),
        p.spec_add(&empty_pile()) == p,
{
}

/// Addition of piles is commutative.
pub proof fn lemma_add_commutative(a: ResourcePile, b: ResourcePile)
    requires
        a.can_add(&b),
    ensures
        b.can_add(&a),
        a.spec_add(&b) == b.spec_add(&a),
{
}

} // verus!
