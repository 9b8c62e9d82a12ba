use vstd::prelude::*;

use crate::advance::{Advance, AdvanceBuilder, AdvanceInfo, Bonus};
use crate::city_pieces::Building;
use crate::resource_pile::{empty_pile, ResourcePile};
use crate::content::advances::{advance_group_builder, group_is_content, lemma_content_entry, AdvanceGroup, AdvanceGroupInfo};

verus! {

/// The Culture group.
pub fn culture() -> (r: AdvanceGroupInfo)
    ensures
        group_is_content(r, 7),
{
    let v = vec![arts(), sports(), monuments(), theaters()];
    let ghost vs = v@;
    let r = advance_group_builder(AdvanceGroup::Culture, "Culture", v);
    proof {
        assert forall|k: int| 0 <= k < 4 implies (#[trigger] r.advances@[k]).advance == crate::advance::advance_at(28 + k) && crate::content::advances::info_is_content(r.advances@[k], k, crate::advance::advance_at(28)) by {
            lemma_content_entry(r.advances@[k], vs[k], k, vs[0].advance);
        }
    }
    r
}

fn arts() -> (b: AdvanceBuilder)
    ensures
        b.is_content_of(Advance::Arts),
{
    AdvanceInfo::builder(
        Advance::Arts,
        "Arts",
        "Once per turn, as a free action, you may spend 1 culture token to get an influence culture action",
    )
    .with_advance_bonus(Bonus::CultureToken)
    .with_unlocked_building(Building::Obelisk)
}

fn sports() -> (b: AdvanceBuilder)
    ensures
        b.is_content_of(Advance::Sports),
{
    AdvanceInfo::builder(
        Advance::Sports,
        "Sports",
        "As an action, you may spend 1 or 2 culture tokens to increase the happiness of a city by 1 or 2, respectively",
    )
    .with_advance_bonus(Bonus::MoodToken)
}

fn monuments() -> (b: AdvanceBuilder)
    ensures
        b.is_content_of(Advance::Monuments),
{
    AdvanceInfo::builder(
        Advance::Monuments,
        "Monuments",
        "Immediately draw 1 wonder card. Your cities with wonders may not be the target of influence culture attempts",
    )
    .with_advance_bonus(Bonus::CultureToken)
}

fn theaters() -> (b: AdvanceBuilder)
    ensures
        b.is_content_of(Advance::Theaters),
{
    AdvanceInfo::builder(
        Advance::Theaters,
        "Theaters",
        "Once per turn, as a free action, you may convert 1 culture token into 1 mood token, or 1 mood token into 1 culture token",
    )
    .with_advance_bonus(Bonus::MoodToken)
}


/// Theaters turn one kind of token into the other: paying with mood tokens gives a culture
/// token, paying otherwise gives a mood token.
pub fn theater_opposite(payment: &ResourcePile) -> (r: ResourcePile)
    ensures
        r == if payment.mood_tokens > 0 {
            ResourcePile { culture_tokens: 1, ..empty_pile() }
        } else {
            ResourcePile { mood_tokens: 1, ..empty_pile() }
        },
{
    if payment.mood_tokens > 0 {
        ResourcePile::culture_tokens(1)
    } else {
        ResourcePile::mood_tokens(1)
    }
}

} // verus!
