use vstd::prelude::*;

verus! {

/// The name of the barbarian civilization.
pub const BARBARIANS: &'static str = "Barbarians";

/// The name of the pirate civilization.
pub const PIRATES: &'static str = "Pirates";

/// A civilization, known by its name.
#[derive(Clone, Debug)]
pub struct Civilization {
    pub name: String,
}

impl Civilization {
    pub open spec fn spec_is_barbarian(&self) -> bool {
        self.name@ == "Barbarians"@
    }

    pub open spec fn spec_is_pirates(&self) -> bool {
        self.name@ == "Pirates"@
    }

    pub fn new(name: &str) -> (c: Civilization)
        ensures
            c.name@ == name@,
    {
        Civilization { name: name.to_owned() }
    }

    pub fn is_barbarian(&self) -> (r: bool)
        ensures
            r == self.spec_is_barbarian(),
    {
        let b: String = BARBARIANS.to_owned();
        proof {
            reveal_strlit("Barbarians");
        }
        self.name == b
    }

    pub fn is_pirates(&self) -> (r: bool)
        ensures
            r == self.spec_is_pirates(),
    {
        let p: String = PIRATES.to_owned();
        proof {
            reveal_strlit("Pirates");
        }
        self.name == p
    }

    /// Human players are neither barbarians nor pirates.
    pub fn is_human(&self) -> (r: bool)
        ensures
            r == (!self.spec_is_barbarian() && !self.spec_is_pirates()),
    {
        !self.is_barbarian() && !self.is_pirates()
    }

    /// Civilizations are equal when their names are.
    pub fn same_as(&self, other: &Civilization) -> (r: bool)
        ensures
            r == (self.name@ == other.name@),
    {
        self.name == other.name
    }
}

} // verus!
