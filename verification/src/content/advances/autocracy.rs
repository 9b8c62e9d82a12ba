use vstd::prelude::*;

use crate::advance::{Advance, AdvanceBuilder, AdvanceInfo, Bonus};
use crate::city::{City, MoodState};
use crate::content::advances::{advance_group_builder, group_is_content, lemma_content_entry, AdvanceGroup, AdvanceGroupInfo};

verus! {

/// The Autocracy group.
pub fn autocracy() -> (r: AdvanceGroupInfo)
    ensures
        group_is_content(r, 10),
{
    let v = vec![nationalism(), totalitarianism(), absolute_power(), forced_labor()];
    let ghost vs = v@;
    let r = advance_group_builder(AdvanceGroup::Autocracy, "Autocracy", v);
    proof {
        assert forall|k: int| 0 <= k < 4 implies (#[trigger] r.advances@[k]).advance == crate::advance::advance_at(40 + k) && crate::content::advances::info_is_content(r.advances@[k], k, crate::advance::advance_at(40)) by {
            lemma_content_entry(r.advances@[k], vs[k], k, vs[0].advance);
        }
    }
    r
}

fn nationalism() -> (b: AdvanceBuilder)
    ensures
        b.is_content_of(Advance::Nationalism),
{
    AdvanceInfo::builder(
        Advance::Nationalism,
        "Nationalism",
        "Gain 1 mood or culture token when you recruit an army or ship unit.",
    )
}

fn totalitarianism() -> (b: AdvanceBuilder)
    ensures
        b.is_content_of(Advance::Totalitarianism),
{
    AdvanceInfo::builder(
        Advance::Totalitarianism,
        "Totalitarianism",
        "Attempts to influence your cities with Army Units may not be boosted by culture tokens",
    )
}

fn absolute_power() -> (b: AdvanceBuilder)
    ensures
        b.is_content_of(Advance::AbsolutePower),
{
    AdvanceInfo::builder(
        Advance::AbsolutePower,
        "Absolute Power",
        "Once per turn, as a free action, you may spend 2 mood tokens to get an additional action",
    )
}

fn forced_labor() -> (b: AdvanceBuilder)
    ensures
        b.is_content_of(Advance::ForcedLabor),
{
    AdvanceInfo::builder(
        Advance::ForcedLabor,
        "Forced Labor",
        "Once per turn, as a free action, you may spend 1 mood token to treat your Angry cities as neutral for the rest of the turn",
    )
}


/// Some city of the player is angry.
pub fn any_angry(cities: &Vec<City>) -> (r: bool)
    ensures
        r == exists|i: int| 0 <= i < cities@.len() && (#[trigger] cities@[i]).mood_state == MoodState::Angry,
{
    let mut i: usize = 0;
    while i < cities.len()
        invariant
            0 <= i <= cities@.len(),
            forall|k: int| 0 <= k < i ==> (#[trigger] cities@[k]).mood_state != MoodState::Angry,
        decreases cities@.len() - i,
    {
        if cities[i].mood_state == MoodState::Angry {
            return true;
        }
        i = i + 1;
    }
    false
}

} // verus!
