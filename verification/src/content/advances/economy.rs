use vstd::prelude::*;

use crate::advance::{Advance, AdvanceBuilder, AdvanceInfo, Bonus};
use crate::city_pieces::Building;
use crate::content::advances::{advance_group_builder, group_is_content, lemma_content_entry, AdvanceGroup, AdvanceGroupInfo};

verus! {

/// The Economy group.
pub fn economy() -> (r: AdvanceGroupInfo)
    ensures
        group_is_content(r, 6),
{
    let v = vec![bartering(), trade_routes(), taxes(), currency()];
    let ghost vs = v@;
    let r = advance_group_builder(AdvanceGroup::Economy, "Economy", v);
    proof {
        assert forall|k: int| 0 <= k < 4 implies (#[trigger] r.advances@[k]).advance == crate::advance::advance_at(24 + k) && crate::content::advances::info_is_content(r.advances@[k], k, crate::advance::advance_at(24)) by {
            lemma_content_entry(r.advances@[k], vs[k], k, vs[0].advance);
        }
    }
    r
}

fn bartering() -> (b: AdvanceBuilder)
    ensures
        b.is_content_of(Advance::Bartering),
{
    AdvanceInfo::builder(
        Advance::Bartering,
        "Bartering",
        "Once per turn, as a free action, you may spend discard an action card for 1 gold or 1 culture token.",
    )
    .with_advance_bonus(Bonus::MoodToken)
    .with_unlocked_building(Building::Market)
}

fn trade_routes() -> (b: AdvanceBuilder)
    ensures
        b.is_content_of(Advance::TradeRoutes),
{
    AdvanceInfo::builder(
        Advance::TradeRoutes,
        "Trade Routes",
        "At the beginning of your turn, you gain 1 food for every trade route you can make, to a maximum of 4. A trade route is made between one of your Settlers or Ships and a non-Angry enemy player city within 2 spaces (without counting through unrevealed Regions). Each Settler or Ship can only be paired with one enemy player city. Likewise, each enemy player city must be paired with a different Settler or Ship. In other words, to gain X food you must have at least X Units (Settlers or Ships), each paired with X different enemy cities.",
    )
}

fn taxes() -> (b: AdvanceBuilder)
    ensures
        b.is_content_of(Advance::Taxes),
{
    AdvanceInfo::builder(
        Advance::Taxes,
        "Taxes",
        "Once per turn, as an action, you may spend 1 mood token to gain food, wood, or ore equal to the number of cities you control. If you have the Currency advance, you may gain gold instead of food, wood, or ore.",
    )
}

fn currency() -> (b: AdvanceBuilder)
    ensures
        b.is_content_of(Advance::Currency),
{
    AdvanceInfo::builder(
        Advance::Currency,
        "Currency",
        "You may collect gold instead of food for Trade Routes and Taxes",
    )
    .with_advance_bonus(Bonus::CultureToken)
}

} // verus!
