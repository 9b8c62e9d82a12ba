use vstd::prelude::*;

use crate::advance::{Advance, AdvanceBuilder, AdvanceInfo, Bonus};
use crate::content::advances::{advance_group_builder, group_is_content, lemma_content_entry, AdvanceGroup, AdvanceGroupInfo};

verus! {

/// The Democracy group.
pub fn democracy() -> (r: AdvanceGroupInfo)
    ensures
        group_is_content(r, 9),
{
    let v = vec![voting(), separation_of_power(), civil_liberties(), free_economy()];
    let ghost vs = v@;
    let r = advance_group_builder(AdvanceGroup::Democracy, "Democracy", v);
    proof {
        assert forall|k: int| 0 <= k < 4 implies (#[trigger] r.advances@[k]).advance == crate::advance::advance_at(36 + k) && crate::content::advances::info_is_content(r.advances@[k], k, crate::advance::advance_at(36)) by {
            lemma_content_entry(r.advances@[k], vs[k], k, vs[0].advance);
        }
    }
    r
}

fn voting() -> (b: AdvanceBuilder)
    ensures
        b.is_content_of(Advance::Voting),
{
    AdvanceInfo::builder(
        Advance::Voting,
        "Voting",
        "As a free action, you may spend 1 mood token to use 'Increase happiness'",
    )
}

fn separation_of_power() -> (b: AdvanceBuilder)
    ensures
        b.is_content_of(Advance::SeparationOfPower),
{
    AdvanceInfo::builder(
        Advance::SeparationOfPower,
        "Separation of Power",
        "Attempts to influence your happy cities may not be boosted by culture tokens",
    )
}

fn civil_liberties() -> (b: AdvanceBuilder)
    ensures
        b.is_content_of(Advance::CivilLiberties),
{
    AdvanceInfo::builder(
        Advance::CivilLiberties,
        "Civil Liberties",
        "As an action, you may gain 3 mood tokens. The cost of Draft is increased to 2 mood token",
    )
}

fn free_economy() -> (b: AdvanceBuilder)
    ensures
        b.is_content_of(Advance::FreeEconomy),
{
    AdvanceInfo::builder(
        Advance::FreeEconomy,
        "Free Economy",
        "As a free action, you may spend 1 mood token to collect resources in one city. This must be your only collect action this turn",
    )
}

} // verus!
