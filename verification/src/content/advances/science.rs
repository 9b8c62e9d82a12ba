use vstd::prelude::*;

use crate::advance::{Advance, AdvanceBuilder, AdvanceInfo, Bonus};
use crate::city_pieces::Building;
use crate::content::advances::{advance_group_builder, group_is_content, lemma_content_entry, AdvanceGroup, AdvanceGroupInfo};

verus! {

/// The Science group.
pub fn science() -> (r: AdvanceGroupInfo)
    ensures
        group_is_content(r, 8),
{
    let v = vec![math(), astronomy(), medicine(), metallurgy()];
    let ghost vs = v@;
    let r = advance_group_builder(AdvanceGroup::Science, "Science", v);
    proof {
        assert forall|k: int| 0 <= k < 4 implies (#[trigger] r.advances@[k]).advance == crate::advance::advance_at(32 + k) && crate::content::advances::info_is_content(r.advances@[k], k, crate::advance::advance_at(32)) by {
            lemma_content_entry(r.advances@[k], vs[k], k, vs[0].advance);
        }
    }
    r
}

fn math() -> (b: AdvanceBuilder)
    ensures
        b.is_content_of(Advance::Math),
{
    AdvanceInfo::builder(
        Advance::Math,
        "Math",
        "Engineering and Roads can be bought at no food cost",
    )
    .with_advance_bonus(Bonus::CultureToken)
    .with_unlocked_building(Building::Observatory)
}

fn astronomy() -> (b: AdvanceBuilder)
    ensures
        b.is_content_of(Advance::Astronomy),
{
    AdvanceInfo::builder(
        Advance::Astronomy,
        "Astronomy",
        "Navigation and Cartography can be bought at no food cost",
    )
    .with_advance_bonus(Bonus::CultureToken)
}

fn medicine() -> (b: AdvanceBuilder)
    ensures
        b.is_content_of(Advance::Medicine),
{
    AdvanceInfo::builder(
        Advance::Medicine,
        "Medicine",
        "After recruiting, gain one of the paid resources back",
    )
    .with_advance_bonus(Bonus::CultureToken)
}

fn metallurgy() -> (b: AdvanceBuilder)
    ensures
        b.is_content_of(Advance::Metallurgy),
{
    AdvanceInfo::builder(
        Advance::Metallurgy,
        "Metallurgy",
        "If you have the Steel Weapons Advance, you no longer have to pay 1 ore to activate it against enemies without Steel Weapons. If you collect at least 2 ore, you may replace 1 ore with 1 gold",
    )
    .with_advance_bonus(Bonus::CultureToken)
}

} // verus!
