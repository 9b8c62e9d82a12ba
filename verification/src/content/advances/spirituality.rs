use vstd::prelude::*;

use crate::advance::{Advance, AdvanceBuilder, AdvanceInfo, Bonus};
use crate::city_pieces::Building;
use crate::content::advances::{advance_group_builder, group_is_content, lemma_content_entry, AdvanceGroup, AdvanceGroupInfo};

verus! {

/// The Spirituality group.
pub fn spirituality() -> (r: AdvanceGroupInfo)
    ensures
        group_is_content(r, 5),
{
    let v = vec![myths(), rituals(), priesthood(), state_religion()];
    let ghost vs = v@;
    let r = advance_group_builder(AdvanceGroup::Spirituality, "Spirituality", v);
    proof {
        assert forall|k: int| 0 <= k < 4 implies (#[trigger] r.advances@[k]).advance == crate::advance::advance_at(20 + k) && crate::content::advances::info_is_content(r.advances@[k], k, crate::advance::advance_at(20)) by {
            lemma_content_entry(r.advances@[k], vs[k], k, vs[0].advance);
        }
    }
    r
}

fn myths() -> (b: AdvanceBuilder)
    ensures
        b.is_content_of(Advance::Myths),
{
    AdvanceInfo::builder(
        Advance::Myths,
        "Myths",
        "Whenever an Event card asks you have to reduce the mood in a city, you may pay 1 mood token instead of reducing the mood (does not apply for Pirates).",
    )
    .with_advance_bonus(Bonus::MoodToken)
    .with_unlocked_building(Building::Temple)
}

fn rituals() -> (b: AdvanceBuilder)
    ensures
        b.is_content_of(Advance::Rituals),
{
    AdvanceInfo::builder(
        Advance::Rituals,
        "Rituals",
        "When you perform the Increase Happiness Action you may spend any Resources as a substitute for mood tokens. This is done at a 1:1 ratio",
    )
    .with_advance_bonus(Bonus::CultureToken)
}

fn priesthood() -> (b: AdvanceBuilder)
    ensures
        b.is_content_of(Advance::Priesthood),
{
    AdvanceInfo::builder(
        Advance::Priesthood,
        "Priesthood",
        "Once per turn, a science advance is free",
    )
}

fn state_religion() -> (b: AdvanceBuilder)
    ensures
        b.is_content_of(Advance::StateReligion),
{
    AdvanceInfo::builder(
        Advance::StateReligion,
        "State Religion",
        "Once per turn, when constructing a Temple, do not pay any Food.",
    )
    .with_advance_bonus(Bonus::MoodToken)
}

} // verus!
