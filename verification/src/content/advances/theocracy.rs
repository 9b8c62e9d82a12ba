use vstd::prelude::*;

use crate::advance::{Advance, AdvanceBuilder, AdvanceInfo, Bonus};
use crate::content::advances::{advance_group_builder, group_is_content, lemma_content_entry, AdvanceGroup, AdvanceGroupInfo};

verus! {

/// The Theocracy group.
pub fn theocracy() -> (r: AdvanceGroupInfo)
    ensures
        group_is_content(r, 11),
{
    let v = vec![dogma(), devotion(), conversion(), fanaticism()];
    let ghost vs = v@;
    let r = advance_group_builder(AdvanceGroup::Theocracy, "Theocracy", v);
    proof {
        assert forall|k: int| 0 <= k < 4 implies (#[trigger] r.advances@[k]).advance == crate::advance::advance_at(44 + k) && crate::content::advances::info_is_content(r.advances@[k], k, crate::advance::advance_at(44)) by {
            lemma_content_entry(r.advances@[k], vs[k], k, vs[0].advance);
        }
    }
    r
}

fn dogma() -> (b: AdvanceBuilder)
    ensures
        b.is_content_of(Advance::Dogma),
{
    AdvanceInfo::builder(
        Advance::Dogma,
        "Dogma",
        "Whenever you Construct a new Temple, you may immediately get a Theocracy Advance for free. You are now limited to a maximum of 2 ideas (discard if necessary). Note: Dogma Advance does not apply when you conquer a city with a Temple.",
    )
}

fn devotion() -> (b: AdvanceBuilder)
    ensures
        b.is_content_of(Advance::Devotion),
{
    AdvanceInfo::builder(
        Advance::Devotion,
        "Devotion",
        "Attempts to influence your cities with a Temple may not be boosted by culture tokens",
    )
}

fn conversion() -> (b: AdvanceBuilder)
    ensures
        b.is_content_of(Advance::Conversion),
{
    AdvanceInfo::builder(
        Advance::Conversion,
        "Conversion",
        "You add +1 to your Influence Culture roll and gain 1 culture token when you make a successful Influence Culture attempt.",
    )
}

fn fanaticism() -> (b: AdvanceBuilder)
    ensures
        b.is_content_of(Advance::Fanaticism),
{
    AdvanceInfo::builder(
        Advance::Fanaticism,
        "Fanaticism",
        "During a battle in a city with a Temple, whether you are the attacker or defender, you add +2 combat value to your first combat roll. If you lose the battle, you get 1 free Infantry Unit after the battle and place it in one of your cities.",
    )
}

} // verus!
