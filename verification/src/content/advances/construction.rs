use vstd::prelude::*;

use crate::advance::{Advance, AdvanceBuilder, AdvanceInfo, Bonus};
use crate::content::advances::{advance_group_builder, group_is_content, lemma_content_entry, AdvanceGroup, AdvanceGroupInfo};

verus! {

/// The Construction group.
pub fn construction() -> (r: AdvanceGroupInfo)
    ensures
        group_is_content(r, 1),
{
    let v = vec![mining(), engineering(), sanitation(), roads()];
    let ghost vs = v@;
    let r = advance_group_builder(AdvanceGroup::Construction, "Construction", v);
    proof {
        assert forall|k: int| 0 <= k < 4 implies (#[trigger] r.advances@[k]).advance == crate::advance::advance_at(4 + k) && crate::content::advances::info_is_content(r.advances@[k], k, crate::advance::advance_at(4)) by {
            lemma_content_entry(r.advances@[k], vs[k], k, vs[0].advance);
        }
    }
    r
}

fn mining() -> (b: AdvanceBuilder)
    ensures
        b.is_content_of(Advance::Mining),
{
    AdvanceInfo::builder(
        Advance::Mining,
        "Mining",
        "Your cities may Collect ore from Mountain spaces",
    )
}

fn engineering() -> (b: AdvanceBuilder)
    ensures
        b.is_content_of(Advance::Engineering),
{
    AdvanceInfo::builder(
        Advance::Engineering,
        "Engineering",
        "Immediately draw 1 wonder card. May Construct wonders in happy cities",
    )
}

fn sanitation() -> (b: AdvanceBuilder)
    ensures
        b.is_content_of(Advance::Sanitation),
{
    AdvanceInfo::builder(
        Advance::Sanitation,
        "Sanitation",
        "When Recruiting, you may spend 1 mood token to pay for 1 Settler. Ignore Pestilence and Epidemics events.",
    )
    .with_advance_bonus(Bonus::MoodToken)
}

fn roads() -> (b: AdvanceBuilder)
    ensures
        b.is_content_of(Advance::Roads),
{
    AdvanceInfo::builder(
        Advance::Roads,
        "Roads",
        "When moving from or to a city, you may pay 1 food and 1 ore to extend the range of a group of land units by 1 and ignore terrain effects. May not be used to embark, disembark, or explore",
    )
    .with_advance_bonus(Bonus::CultureToken)
}

} // verus!
