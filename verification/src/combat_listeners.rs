use vstd::prelude::*;

use crate::combat::{Combat, CombatRetreatState};
use crate::combat_roll::{CombatHits, spec_hits};
use crate::combat_stats::CombatStats;
use crate::unit::{seq_count, UnitType};
use crate::tactics_card::CombatRole;

verus! {

/// Changes to one side's strength for the coming combat round.
#[derive(Clone, Debug)]
pub struct CombatStrength {
    pub extra_dies: u8,
    pub extra_combat_value: i8,
    pub hit_cancels: u8,
    pub roll_log: Vec<String>,
    pub tactics_card: Option<u8>,
    pub deny_combat_abilities: bool,
    pub deny_tactics_card: bool,
}

impl CombatStrength {
    /// The unchanged strength: nothing extra and nothing denied.
    pub open spec fn is_plain(&self) -> bool {
        &&& self.extra_dies == 0
        &&& self.extra_combat_value == 0
        &&& self.hit_cancels == 0
        &&& self.roll_log@.len() == 0
        &&& self.tactics_card is None
        &&& !self.deny_combat_abilities
        &&& !self.deny_tactics_card
    }

    pub fn new() -> (r: CombatStrength)
        ensures
            r.is_plain(),
    {
        CombatStrength {
            extra_dies: 0,
            extra_combat_value: 0,
            hit_cancels: 0,
            roll_log: Vec::new(),
            tactics_card: None,
            deny_combat_abilities: false,
            deny_tactics_card: false,
        }
    }
}

impl Default for CombatStrength {
    fn default() -> (r: CombatStrength)
        ensures
            r.is_plain(),
    {
        CombatStrength::new()
    }
}

/// The phases of the events around a combat round.
#[derive(Clone, Copy, Debug, PartialEq, Eq, Structural)]
pub enum CombatEventPhase {
    AllowTacticsCard,
    Default,
    RevealTacticsCard,
    TacticsCard,
    Done,
}

impl CombatEventPhase {
    pub fn is_default(&self) -> (r: bool)
        ensures
            r == (*self is Default),
    {
        matches!(self, CombatEventPhase::Default)
    }
}

/// The start of a combat round.
#[derive(Clone, Debug)]
pub struct CombatRoundStart {
    pub combat: Combat,
    pub phase: CombatEventPhase,
    pub attacker_strength: CombatStrength,
    pub defender_strength: CombatStrength,
    pub final_result: Option<CombatResult>,
}

impl CombatRoundStart {
    pub fn new(combat: Combat) -> (r: CombatRoundStart)
        ensures
            r.combat == combat,
            r.phase == CombatEventPhase::AllowTacticsCard,
            r.attacker_strength.is_plain(),
            r.defender_strength.is_plain(),
            r.final_result is None,
    {
        CombatRoundStart {
            combat,
            attacker_strength: CombatStrength::new(),
            defender_strength: CombatStrength::new(),
            phase: CombatEventPhase::AllowTacticsCard,
            final_result: None,
        }
    }
}

/// The strength of `player` in a round start.
pub fn get_combat_strength(player: usize, e: &CombatRoundStart) -> (r: &CombatStrength)
    requires
        player == e.combat.stats.attacker.player || player == e.combat.stats.defender.player,
    ensures
        player == e.combat.stats.attacker.player ==> *r == e.attacker_strength,
        player != e.combat.stats.attacker.player ==> *r == e.defender_strength,
{
    if player == e.combat.attacker() {
        &e.attacker_strength
    } else {
        &e.defender_strength
    }
}

/// The outcome of a battle.
#[derive(Clone, Copy, Debug, PartialEq, Eq, Structural)]
pub enum CombatResult {
    AttackerWins,
    DefenderWins,
    Draw,
}

pub open spec fn result_winner(r: CombatResult) -> Option<CombatRole> {
    match r {
        CombatResult::AttackerWins => Some(CombatRole::Attacker),
        CombatResult::DefenderWins => Some(CombatRole::Defender),
        CombatResult::Draw => None,
    }
}

impl CombatResult {
    pub fn winner(&self) -> (r: Option<CombatRole>)
        ensures
            r == result_winner(*self),
    {
        match self {
            CombatResult::AttackerWins => Some(CombatRole::Attacker),
            CombatResult::DefenderWins => Some(CombatRole::Defender),
            CombatResult::Draw => None,
        }
    }
}

/// The end of a battle.
#[derive(Clone, Debug)]
pub struct CombatEnd {
    pub result: CombatResult,
    pub combat: Combat,
}

impl CombatEnd {
    pub fn new(result: CombatResult, combat: Combat) -> (r: CombatEnd)
        ensures
            r.result == result,
            r.combat == combat,
    {
        CombatEnd { result, combat }
    }
}

/// The end of a combat round: the hits of both sides.
#[derive(Clone, Debug)]
pub struct CombatRoundEnd {
    pub phase: CombatEventPhase,
    pub attacker: CombatHits,
    pub defender: CombatHits,
    pub final_result: Option<CombatResult>,
    pub combat: Combat,
}

/// The result decided by a round's hits: a side whose opponent killed all of its fighters
/// has lost, both sides losing everything is a draw, and otherwise the battle goes on.
pub open spec fn spec_final_result(attacker: CombatHits, defender: CombatHits) -> Option<CombatResult> {
    let attackers_dead = spec_hits(defender) == defender.opponent_fighters;
    let defenders_dead = spec_hits(attacker) == attacker.opponent_fighters;
    if attackers_dead && defenders_dead {
        Some(CombatResult::Draw)
    } else if attackers_dead {
        Some(CombatResult::DefenderWins)
    } else if defenders_dead {
        Some(CombatResult::AttackerWins)
    } else {
        None
    }
}

impl CombatRoundEnd {
    pub fn new(attacker: CombatHits, defender: CombatHits, combat: Combat) -> (r: CombatRoundEnd)
        requires
            attacker.hits_fit(),
            defender.hits_fit(),
        ensures
            r.attacker == attacker,
            r.defender == defender,
            r.combat == combat,
            r.phase == CombatEventPhase::TacticsCard,
            r.final_result == spec_final_result(attacker, defender),
    {
        let mut combat_round_end = CombatRoundEnd {
            attacker,
            defender,
            final_result: None,
            combat,
            phase: CombatEventPhase::TacticsCard,
        };
        combat_round_end.set_final_result();
        combat_round_end
    }

    /// The attacker may retreat if the combat allows it and no side was wiped out.
    pub fn can_retreat(&self) -> (r: bool)
        requires
            self.attacker.hits_fit(),
            self.defender.hits_fit(),
        ensures
            r == (self.combat.retreat == CombatRetreatState::CanRetreat && spec_hits(self.attacker)
                != self.attacker.opponent_fighters && spec_hits(self.defender)
                != self.defender.opponent_fighters),
    {
        self.combat.retreat == CombatRetreatState::CanRetreat
            && !self.attacker.all_opponents_killed() && !self.defender.all_opponents_killed()
    }

    fn set_final_result(&mut self)
        requires
            old(self).attacker.hits_fit(),
            old(self).defender.hits_fit(),
        ensures
            final(self).final_result == spec_final_result(old(self).attacker, old(self).defender),
            final(self).attacker == old(self).attacker,
            final(self).defender == old(self).defender,
            final(self).combat == old(self).combat,
            final(self).phase == old(self).phase,
    {
        let attackers_dead = self.defender.all_opponents_killed();
        let defenders_dead = self.attacker.all_opponents_killed();
        self.final_result = if attackers_dead && defenders_dead {
            Some(CombatResult::Draw)
        } else if attackers_dead {
            Some(CombatResult::DefenderWins)
        } else if defenders_dead {
            Some(CombatResult::AttackerWins)
        } else {
            None
        };
    }

    /// The hits scored by the side with `role`.
    pub fn hits(&self, role: CombatRole) -> (r: u8)
        requires
            self.attacker.hits_fit(),
            self.defender.hits_fit(),
        ensures
            r == if role is Attacker { spec_hits(self.attacker) } else { spec_hits(self.defender) },
    {
        if role.is_attacker() {
            self.attacker.hits()
        } else {
            self.defender.hits()
        }
    }

    /// The units lost by the side with `role`: the hits of its opponent.
    pub fn losses(&self, role: CombatRole) -> (r: u8)
        requires
            self.attacker.hits_fit(),
            self.defender.hits_fit(),
        ensures
            r == if role is Attacker { spec_hits(self.defender) } else { spec_hits(self.attacker) },
    {
        if role.is_attacker() {
            self.defender.hits()
        } else {
            self.attacker.hits()
        }
    }

    /// Applies `updated`, the hits of the side with `role` as a tactics card changes them:
    /// with `do_update` the change stands and the result is decided anew (and `true`
    /// returned); otherwise nothing changes and the result tells whether the change would
    /// alter the number of hits.
    pub fn update_hits(&mut self, role: CombatRole, do_update: bool, updated: CombatHits) -> (r: bool)
        requires
            old(self).attacker.hits_fit(),
            old(self).defender.hits_fit(),
            updated.hits_fit(),
        ensures
            do_update ==> {
                &&& r
                &&& final(self).attacker == if role is Attacker { updated } else { old(self).attacker }
                &&& final(self).defender == if role is Attacker { old(self).defender } else { updated }
                &&& final(self).final_result == spec_final_result(final(self).attacker, final(self).defender)
                &&& final(self).combat == old(self).combat
                &&& final(self).phase == old(self).phase
            },
            !do_update ==> *final(self) == *old(self) && r == (spec_hits(updated) != if role is Attacker {
                spec_hits(old(self).attacker)
            } else {
                spec_hits(old(self).defender)
            }),
    {
        if do_update {
            if role.is_attacker() {
                self.attacker = updated;
            } else {
                self.defender = updated;
            }
            self.set_final_result();
            true
        } else {
            let current = if role.is_attacker() {
                self.attacker.hits()
            } else {
                self.defender.hits()
            };
            current != updated.hits()
        }
    }

    pub fn role(&self, player: usize) -> (r: CombatRole)
        ensures
            r == self.combat.stats.spec_role(player),
    {
        self.combat.role(player)
    }
}

/// A round ends the battle exactly when some side has no fighters left after the hits.
pub proof fn lemma_final_result_iff_wiped_out(a: CombatHits, d: CombatHits)
    ensures
        (spec_final_result(a, d) is Some) == (spec_hits(d) == d.opponent_fighters || spec_hits(a)
            == a.opponent_fighters),
        spec_final_result(a, d) == Some(CombatResult::AttackerWins) ==> spec_hits(a)
            == a.opponent_fighters && spec_hits(d) < d.opponent_fighters,
{
    crate::combat_roll::lemma_hits_bounded(d);
}

/// What happens after the events at the end of a combat round.
#[derive(Clone, Copy, Debug, PartialEq, Eq, Structural)]
pub enum RoundEndOutcome {
    /// The battle is over with this result.
    Finished(CombatResult),
    /// The attacker retreated: the battle ends without a result.
    Retreated,
    /// Another round is fought.
    NextRound,
}

/// A decided result ends the battle; a retreat ends it after this round; otherwise the
/// battle goes on.
pub fn combat_round_end_outcome(e: &CombatRoundEnd) -> (r: RoundEndOutcome)
    ensures
        r == match e.final_result {
            Some(f) => RoundEndOutcome::Finished(f),
            None => if e.combat.retreat == CombatRetreatState::EndAfterCurrentRound {
                RoundEndOutcome::Retreated
            } else {
                RoundEndOutcome::NextRound
            },
        },
{
    match e.final_result {
        Some(f) => RoundEndOutcome::Finished(f),
        None => if e.combat.retreat == CombatRetreatState::EndAfterCurrentRound {
            RoundEndOutcome::Retreated
        } else {
            RoundEndOutcome::NextRound
        },
    }
}

/// The combat with its round counter advanced.
pub fn next_round(c: Combat) -> (r: Combat)
    requires
        c.stats.round < u32::MAX,
    ensures
        r.stats.round == c.stats.round + 1,
        r.attackers == c.attackers,
        r.retreat == c.retreat,
        r.modifiers == c.modifiers,
        r.stats.attacker == c.stats.attacker,
        r.stats.defender == c.stats.defender,
        r.stats.result == c.stats.result,
{
    let mut c = c;
    c.stats.round = c.stats.round + 1;
    c
}

/// The result of a drawn round: a defending fortress wins a draw in the first round.
pub fn draw_result(c: &Combat, defender_fortress: bool) -> (r: CombatResult)
    ensures
        r == if defender_fortress && c.stats.round == 1 {
            CombatResult::DefenderWins
        } else {
            CombatResult::Draw
        },
{
    if defender_fortress && c.first_round() {
        CombatResult::DefenderWins
    } else {
        CombatResult::Draw
    }
}

/// The record of a finished battle: its statistics with the result stored.
pub fn end_combat_stats(e: CombatEnd) -> (r: CombatStats)
    ensures
        r.result == Some(e.result),
        r.round == e.combat.stats.round,
        r.attacker == e.combat.stats.attacker,
        r.defender == e.combat.stats.defender,
        r.battleground == e.combat.stats.battleground,
        r.city_mood == e.combat.stats.city_mood,
{
    let mut stats = e.combat.stats;
    stats.result = Some(e.result);
    stats
}

/// Records the killed unit types as losses of `player`'s side.
pub fn record_losses(stats: &mut CombatStats, player: usize, killed: &[UnitType])
    requires
        forall|t: UnitType| old(stats).stats_of(old(stats).spec_role(player)).losses.count(t) + seq_count(killed@, t) <= u8::MAX,
    ensures
        forall|t: UnitType| final(stats).stats_of(old(stats).spec_role(player)).losses.count(t)
            == old(stats).stats_of(old(stats).spec_role(player)).losses.count(t) + seq_count(killed@, t),
        final(stats).stats_of(old(stats).spec_opponent_role(player)) == old(stats).stats_of(old(stats).spec_opponent_role(player)),
        final(stats).stats_of(old(stats).spec_role(player)).present == old(stats).stats_of(old(stats).spec_role(player)).present,
        final(stats).result == old(stats).result,
        final(stats).round == old(stats).round,
{
    if killed.len() == 0 {
        proof {
            assert forall|t: UnitType| seq_count(killed@, t) == 0 by {
                crate::unit::lemma_seq_count_le_len(killed@, t);
            }
        }
        return ;
    }
    let role = stats.role(player);
    let p = stats.player_mut(role);
    p.add_losses(killed);
}

/// Removes the killed units from the attacking units when `player` is the attacker.
pub fn remove_killed_attackers(c: &mut Combat, player: usize, killed: &[u32])
    ensures
        player == old(c).spec_attacker() ==> final(c).attackers@ == old(c).attackers@.filter(
            |id: u32| !killed@.contains(id),
        ),
        player != old(c).spec_attacker() ==> final(c).attackers@ == old(c).attackers@,
        final(c).stats == old(c).stats,
        final(c).retreat == old(c).retreat,
{
    if player != c.attacker() {
        return ;
    }
    let ghost f = |id: u32| !killed@.contains(id);
    let mut kept: Vec<u32> = Vec::new();
    let mut i: usize = 0;
    while i < c.attackers.len()
        invariant
            0 <= i <= c.attackers@.len(),
            f == (|id: u32| !killed@.contains(id)),
            kept@ == c.attackers@.take(i as int).filter(f),
        decreases c.attackers@.len() - i,
    {
        proof {
            assert(c.attackers@.take(i as int + 1).drop_last() =~= c.attackers@.take(i as int));
            reveal(Seq::filter);
        }
        let id = c.attackers[i];
        let mut found = false;
        let mut k: usize = 0;
        while k < killed.len()
            invariant
                0 <= k <= killed@.len(),
                found == exists|j: int| 0 <= j < k && killed@[j] == id,
            decreases killed@.len() - k,
        {
            if killed[k] == id {
                found = true;
            }
            k = k + 1;
        }
        proof {
            if found {
                let j = choose|j: int| 0 <= j < killed@.len() && killed@[j] == id;
                assert(killed@.contains(id));
            } else {
                assert(!killed@.contains(id));
            }
        }
        if !found {
            kept.push(id);
        }
        proof {
            if f(id) {
                assert(c.attackers@.take(i as int + 1).filter(f) =~= c.attackers@.take(i as int).filter(f).push(id));
            } else {
                assert(c.attackers@.take(i as int + 1).filter(f) =~= c.attackers@.take(i as int).filter(f));
            }
        }
        i = i + 1;
    }
    proof {
        assert(c.attackers@.take(c.attackers@.len() as int) =~= c.attackers@);
    }
    c.attackers = kept;
}

/// How the casualties of a round are chosen.
#[derive(Clone, Copy, Debug, PartialEq, Eq, Structural)]
pub enum CasualtyChoice {
    /// Nobody was hit.
    NoCasualties,
    /// Every fighting unit is lost.
    KillAll,
    /// The first units in the list are lost.
    KillFirst(u8),
    /// The player chooses which units are lost.
    Ask(u8),
}

/// All units in the sequence have the same type.
pub open spec fn all_same_type(types: Seq<UnitType>) -> bool {
    forall|i: int| 0 <= i < types.len() ==> #[trigger] types[i] == types[0]
}

/// Casualties are removed without asking when there are none, when all units are hit,
/// when all units are alike, or when the player is not human; otherwise the player chooses.
pub fn choose_casualties(casualties: u8, fighter_types: &[UnitType], is_human: bool) -> (r: CasualtyChoice)
    requires
        fighter_types@.len() > 0 || casualties == 0,
    ensures
        r == if casualties == 0 {
            CasualtyChoice::NoCasualties
        } else if casualties as int == fighter_types@.len() as u8 as int {
            CasualtyChoice::KillAll
        } else if all_same_type(fighter_types@) || !is_human {
            CasualtyChoice::KillFirst(casualties)
        } else {
            CasualtyChoice::Ask(casualties)
        },
{
    if casualties == 0 {
        return CasualtyChoice::NoCasualties;
    }
    if casualties == fighter_types.len() as u8 {
        return CasualtyChoice::KillAll;
    }
    let first = fighter_types[0];
    let mut same = true;
    let mut i: usize = 0;
    while i < fighter_types.len()
        invariant
            0 <= i <= fighter_types@.len(),
            first == fighter_types@[0],
            same == forall|k: int| 0 <= k < i ==> #[trigger] fighter_types@[k] == first,
        decreases fighter_types@.len() - i,
    {
        if fighter_types[i] != first {
            same = false;
        }
        i = i + 1;
    }
    if same || !is_human {
        CasualtyChoice::KillFirst(casualties)
    } else {
        CasualtyChoice::Ask(casualties)
    }
}

/// The attacker is offered a retreat when the round allows it.
pub fn offers_retreat(e: &CombatRoundEnd, player: usize) -> (r: bool)
    requires
        e.attacker.hits_fit(),
        e.defender.hits_fit(),
    ensures
        r == (e.combat.spec_attacker() == player && e.combat.retreat == CombatRetreatState::CanRetreat
            && spec_hits(e.attacker) != e.attacker.opponent_fighters && spec_hits(e.defender)
            != e.defender.opponent_fighters),
{
    e.combat.attacker() == player && e.can_retreat()
}

/// The phases of `round_types` from the current one on, in order.
pub fn remaining_phases(round_types: &[CombatEventPhase], current: CombatEventPhase) -> (r: Vec<CombatEventPhase>)
    requires
        round_types@.contains(current),
    ensures
        exists|from: int| 0 <= from < round_types@.len() && round_types@[from] == current && (forall|k: int|
            0 <= k < from ==> round_types@[k] != current) && r@ == round_types@.skip(from),
{
    let mut from: usize = 0;
    while from < round_types.len() && round_types[from] != current
        invariant
            0 <= from <= round_types@.len(),
            round_types@.contains(current),
            forall|k: int| 0 <= k < from ==> round_types@[k] != current,
        decreases round_types@.len() - from,
    {
        from = from + 1;
    }
    if from == round_types.len() {
        proof {
            let j = choose|j: int| 0 <= j < round_types@.len() && round_types@[j] == current;
            assert(round_types@[j] != current);
        }
    }
    let mut r: Vec<CombatEventPhase> = Vec::new();
    let mut i: usize = from;
    while i < round_types.len()
        invariant
            from <= i <= round_types@.len(),
            r@ == round_types@.subrange(from as int, i as int),
        decreases round_types@.len() - i,
    {
        r.push(round_types[i]);
        proof {
            assert(round_types@.subrange(from as int, i as int + 1) =~= round_types@.subrange(from as int, i as int).push(round_types@[i as int]));
        }
        i = i + 1;
    }
    proof {
        assert(round_types@.subrange(from as int, round_types@.len() as int) =~= round_types@.skip(from as int));
        assert(round_types@[from as int] == current);
    }
    r
}

} // verus!
