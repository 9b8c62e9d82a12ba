use vstd::prelude::*;

use crate::advance::{Advance, AdvanceBuilder, AdvanceInfo, Bonus};
use crate::city_pieces::Building;
use crate::combat::{Combat, CombatModifier};
use crate::combat_listeners::CombatStrength;
use crate::tactics_card::CombatRole;
use crate::content::advances::{advance_group_builder, group_is_content, lemma_content_entry, AdvanceGroup, AdvanceGroupInfo};

verus! {

/// The Warfare group.
pub fn warfare() -> (r: AdvanceGroupInfo)
    ensures
        group_is_content(r, 4),
{
    let v = vec![tactics(), siegecraft(), steel_weapons(), draft()];
    let ghost vs = v@;
    let r = advance_group_builder(AdvanceGroup::Warfare, "Warfare", v);
    proof {
        assert forall|k: int| 0 <= k < 4 implies (#[trigger] r.advances@[k]).advance == crate::advance::advance_at(16 + k) && crate::content::advances::info_is_content(r.advances@[k], k, crate::advance::advance_at(16)) by {
            lemma_content_entry(r.advances@[k], vs[k], k, vs[0].advance);
        }
    }
    r
}

fn tactics() -> (b: AdvanceBuilder)
    ensures
        b.is_content_of(Advance::Tactics),
{
    AdvanceInfo::builder(
        Advance::Tactics,
        "Tactics",
        "May Move Army units, May use Tactics on Action Cards",
    )
    .with_advance_bonus(Bonus::CultureToken)
    .with_unlocked_building(Building::Fortress)
}

fn siegecraft() -> (b: AdvanceBuilder)
    ensures
        b.is_content_of(Advance::Siegecraft),
{
    AdvanceInfo::builder(
        Advance::Siegecraft,
        "Siegecraft",
        "When attacking a city with a Fortress, pay 2 wood to cancel the Fortress’ ability to add +1 die and/or pay 2 ore to ignore its ability to cancel a hit.",
    )
}

fn steel_weapons() -> (b: AdvanceBuilder)
    ensures
        b.is_content_of(Advance::SteelWeapons),
{
    AdvanceInfo::builder(
        Advance::SteelWeapons,
        "Steel Weapons",
        "Immediately before a Land battle starts, you may pay 1 ore to get +2 combat value in every Combat Round against an enemy that does not have the Steel Weapons advance. If the enemy also has Steel Weapons, you only +1 combat value, even if the enemy does not use the ability.",
    )
}

fn draft() -> (b: AdvanceBuilder)
    ensures
        b.is_content_of(Advance::Draft),
{
    AdvanceInfo::builder(
        Advance::Draft,
        "Draft",
        "When Recruiting, you may spend 1 mood token to pay for 1 Infantry Army Unit.",
    )
    .with_advance_bonus(Bonus::CultureToken)
}


/// The cost of drafting an infantry unit, in mood tokens: two with Civil Liberties, one
/// otherwise.
pub fn draft_cost(civil_liberties: bool) -> (r: u8)
    ensures
        r == if civil_liberties { 2u8 } else { 1u8 },
{
    if civil_liberties {
        2
    } else {
        1
    }
}

/// Whether the combat has the modifier.
fn has_modifier(c: &Combat, m: CombatModifier) -> (r: bool)
    ensures
        r == c.modifiers@.contains(m),
{
    let mut i: usize = 0;
    while i < c.modifiers.len()
        invariant
            0 <= i <= c.modifiers@.len(),
            forall|k: int| 0 <= k < i ==> c.modifiers@[k] != m,
        decreases c.modifiers@.len() - i,
    {
        if c.modifiers[i] == m {
            return true;
        }
        i = i + 1;
    }
    false
}

/// A fortress helps the defender in the first round of a battle: one extra die and one
/// cancelled hit, unless the attacker cancelled these effects (`defender_fortress` tells
/// whether the defending city has a fortress).
pub fn fortress(c: &Combat, s: &mut CombatStrength, role: CombatRole, defender_fortress: bool)
    requires
        old(s).extra_dies < u8::MAX,
        old(s).hit_cancels < u8::MAX,
    ensures
        ({
            let active = role is Defender && defender_fortress && c.stats.round == 1;
            &&& final(s).extra_dies == old(s).extra_dies + if active && !c.modifiers@.contains(
                CombatModifier::CancelFortressExtraDie,
            ) {
                1int
            } else {
                0int
            }
            &&& final(s).hit_cancels == old(s).hit_cancels + if active && !c.modifiers@.contains(
                CombatModifier::CancelFortressIgnoreHit,
            ) {
                1int
            } else {
                0int
            }
        }),
        final(s).extra_combat_value == old(s).extra_combat_value,
        final(s).tactics_card == old(s).tactics_card,
        final(s).deny_combat_abilities == old(s).deny_combat_abilities,
        final(s).deny_tactics_card == old(s).deny_tactics_card,
{
    if role.is_attacker() || !defender_fortress || c.stats.round != 1 {
        return;
    }
    if !has_modifier(c, CombatModifier::CancelFortressExtraDie) {
        s.roll_log.push("fortress added one extra die".to_owned());
        s.extra_dies = s.extra_dies + 1;
    }
    if !has_modifier(c, CombatModifier::CancelFortressIgnoreHit) {
        s.roll_log.push("fortress cancelled one hit".to_owned());
        s.hit_cancels = s.hit_cancels + 1;
    }
}

/// The player who pays for Steel Weapons gets its effect as attacker or as defender.
pub fn add_steel_weapons(player_index: usize, c: &mut Combat)
    ensures
        final(c).modifiers@ == old(c).modifiers@.push(if player_index == old(c).spec_attacker() {
            CombatModifier::SteelWeaponsAttacker
        } else {
            CombatModifier::SteelWeaponsDefender
        }),
        final(c).attackers == old(c).attackers,
        final(c).stats == old(c).stats,
        final(c).retreat == old(c).retreat,
{
    if player_index == c.attacker() {
        c.modifiers.push(CombatModifier::SteelWeaponsAttacker);
    } else {
        c.modifiers.push(CombatModifier::SteelWeaponsDefender);
    }
}

/// What Steel Weapons costs, in ore or gold: nothing with Metallurgy unless both sides have
/// Steel Weapons, one otherwise.
pub fn steel_weapons_cost(metallurgy: bool, attacker_steel_weapons: bool, defender_steel_weapons: bool) -> (r: u8)
    ensures
        r == if !metallurgy || (attacker_steel_weapons && defender_steel_weapons) { 1u8 } else { 0u8 },
{
    if !metallurgy || (attacker_steel_weapons && defender_steel_weapons) {
        1
    } else {
        0
    }
}

/// Steel Weapons add combat value to the side that paid for them: one when both sides have
/// Steel Weapons, two otherwise.
pub fn use_steel_weapons(
    c: &Combat,
    s: &mut CombatStrength,
    role: CombatRole,
    attacker_steel_weapons: bool,
    defender_steel_weapons: bool,
)
    requires
        old(s).extra_combat_value + 2 <= i8::MAX,
    ensures
        ({
            let value: int = if attacker_steel_weapons && defender_steel_weapons { 1 } else { 2 };
            let paid = if role is Attacker {
                c.modifiers@.contains(CombatModifier::SteelWeaponsAttacker)
            } else {
                c.modifiers@.contains(CombatModifier::SteelWeaponsDefender)
            };
            final(s).extra_combat_value == old(s).extra_combat_value + if paid { value } else { 0 }
        }),
        final(s).extra_dies == old(s).extra_dies,
        final(s).hit_cancels == old(s).hit_cancels,
        final(s).tactics_card == old(s).tactics_card,
        final(s).deny_combat_abilities == old(s).deny_combat_abilities,
        final(s).deny_tactics_card == old(s).deny_tactics_card,
{
    let value: i8 = if attacker_steel_weapons && defender_steel_weapons {
        1
    } else {
        2
    };
    let paid = if role.is_attacker() {
        has_modifier(c, CombatModifier::SteelWeaponsAttacker)
    } else {
        has_modifier(c, CombatModifier::SteelWeaponsDefender)
    };
    if paid {
        s.extra_combat_value = s.extra_combat_value + value;
        if value == 1 {
            s.roll_log.push("steel weapons added 1 combat value".to_owned());
        } else {
            s.roll_log.push("steel weapons added 2 combat value".to_owned());
        }
    }
}

} // verus!
