use vstd::prelude::*;

use crate::advance::{Advance, AdvanceBuilder, AdvanceInfo, Bonus};
use crate::city_pieces::Building;
use crate::content::advances::{advance_group_builder, group_is_content, lemma_content_entry, AdvanceGroup, AdvanceGroupInfo};

verus! {

/// The Education group.
pub fn education() -> (r: AdvanceGroupInfo)
    ensures
        group_is_content(r, 3),
{
    let v = vec![writing(), public_education(), free_education(), philosophy()];
    let ghost vs = v@;
    let r = advance_group_builder(AdvanceGroup::Education, "Education", v);
    proof {
        assert forall|k: int| 0 <= k < 4 implies (#[trigger] r.advances@[k]).advance == crate::advance::advance_at(12 + k) && crate::content::advances::info_is_content(r.advances@[k], k, crate::advance::advance_at(12)) by {
            lemma_content_entry(r.advances@[k], vs[k], k, vs[0].advance);
        }
    }
    r
}

fn writing() -> (b: AdvanceBuilder)
    ensures
        b.is_content_of(Advance::Writing),
{
    AdvanceInfo::builder(
        Advance::Writing,
        "Writing",
        "Gain 1 action and 1 objective card",
    )
    .with_advance_bonus(Bonus::CultureToken)
    .with_unlocked_building(Building::Academy)
}

fn public_education() -> (b: AdvanceBuilder)
    ensures
        b.is_content_of(Advance::PublicEducation),
{
    AdvanceInfo::builder(
        Advance::PublicEducation,
        "Public Education",
        "Once per turn, when you collect resources in a city with an Academy, gain 1 idea",
    )
    .with_advance_bonus(Bonus::MoodToken)
}

fn free_education() -> (b: AdvanceBuilder)
    ensures
        b.is_content_of(Advance::FreeEducation),
{
    AdvanceInfo::builder(
        Advance::FreeEducation,
        "Free Education",
        "After you buy an Advance by paying for it with at least 1 gold or 1 idea, you may pay an extra 1 idea to gain 1 mood token",
    )
    .with_advance_bonus(Bonus::MoodToken)
}

fn philosophy() -> (b: AdvanceBuilder)
    ensures
        b.is_content_of(Advance::Philosophy),
{
    AdvanceInfo::builder(
        Advance::Philosophy,
        "Philosophy",
        "Immediately gain 1 idea. Gain 1 idea after getting a Science advance",
    )
    .with_advance_bonus(Bonus::MoodToken)
}

} // verus!
