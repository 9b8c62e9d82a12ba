use vstd::prelude::*;

verus! {

/// The wonders a city can hold.
#[derive(Clone, Copy, Debug, PartialEq, Eq, Structural)]
pub enum Wonder {
    Colosseum,
    GreatGardens,
    GreatLibrary,
    GreatLighthouse,
    GreatMausoleum,
    GreatStatue,
    GreatWall,
    Pyramids,
}

impl Wonder {
    /// The name shown to players.
    pub open spec fn spec_name(self) -> Seq<char> {
        match self {
            Wonder::Colosseum => "Colosseum"@,
            Wonder::GreatGardens => "Great Gardens"@,
            Wonder::GreatLibrary => "Great Library"@,
            Wonder::GreatLighthouse => "Great Lighthouse"@,
            Wonder::GreatMausoleum => "Great Mausoleum"@,
            Wonder::GreatStatue => "Great Statue"@,
            Wonder::GreatWall => "Great Wall"@,
            Wonder::Pyramids => "Pyramids"@,
        }
    }

    pub fn name(&self) -> (r: String)
        ensures
            r@ == self.spec_name(),
    {
        let s: &str = match self {
            Wonder::Colosseum => "Colosseum",
            Wonder::GreatGardens => "Great Gardens",
            Wonder::GreatLibrary => "Great Library",
            Wonder::GreatLighthouse => "Great Lighthouse",
            Wonder::GreatMausoleum => "Great Mausoleum",
            Wonder::GreatStatue => "Great Statue",
            Wonder::GreatWall => "Great Wall",
            Wonder::Pyramids => "Pyramids",
        };
        s.to_owned()
    }
}

} // verus!
