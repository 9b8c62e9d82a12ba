use vstd::prelude::*;

use crate::combat_listeners::CombatStrength;
use crate::unit::{seq_count, UnitType, Units, LEADER_UNIT};

verus! {

/// The hits one side scores in a combat round.
#[derive(Clone, Copy, Debug, PartialEq, Eq, Structural)]
pub struct CombatHits {
    pub tactics_card: Option<u8>,
    pub opponent_hit_cancels: u8,
    pub opponent_fighters: u8,
    pub combat_value: u8,
    pub extra_hits: u8,
}

/// Every 5 combat value is a hit; the opponent cancels some, extra hits cannot be cancelled,
/// and no more units can be hit than the opponent has fighting.
pub open spec fn spec_hits(h: CombatHits) -> u8 {
    let base = h.combat_value / 5;
    let after_cancel = if base > h.opponent_hit_cancels { base - h.opponent_hit_cancels } else { 0 };
    let raw = after_cancel + h.extra_hits;
    if raw < h.opponent_fighters { raw as u8 } else { h.opponent_fighters }
}

impl CombatHits {
    /// The uncancelled and extra hits fit in a `u8`.
    pub open spec fn hits_fit(&self) -> bool {
        let base = self.combat_value / 5;
        let after_cancel = if base > self.opponent_hit_cancels { base - self.opponent_hit_cancels } else { 0 };
        after_cancel + self.extra_hits <= u8::MAX
    }

    pub fn new(
        tactics_card: Option<u8>,
        opponent_hit_cancels: u8,
        opponent_fighters: u8,
        combat_value: u8,
    ) -> (r: CombatHits)
        ensures
            r == (CombatHits {
                tactics_card,
                opponent_hit_cancels,
                opponent_fighters,
                combat_value,
                extra_hits: 0,
            }),
            r.hits_fit(),
    {
        CombatHits { tactics_card, opponent_hit_cancels, opponent_fighters, combat_value, extra_hits: 0 }
    }

    pub fn hits(&self) -> (r: u8)
        requires
            self.hits_fit(),
        ensures
            r == spec_hits(*self),
            r <= self.opponent_fighters,
    {
        let hits = (self.combat_value / 5).saturating_sub(self.opponent_hit_cancels) + self.extra_hits;
        if hits < self.opponent_fighters {
            hits
        } else {
            self.opponent_fighters
        }
    }

    /// All fighters of the opponent are hit.
    pub fn all_opponents_killed(&self) -> (r: bool)
        requires
            self.hits_fit(),
        ensures
            r == (spec_hits(*self) == self.opponent_fighters),
    {
        self.hits() == self.opponent_fighters
    }
}

/// Hits never exceed the opponent's fighters.
pub proof fn lemma_hits_bounded(h: CombatHits)
    ensures
        spec_hits(h) <= h.opponent_fighters,
{
}

/// More combat value never gives fewer hits.
pub proof fn lemma_hits_monotonic(a: CombatHits, b: CombatHits)
    requires
        a.combat_value <= b.combat_value,
        a.opponent_hit_cancels == b.opponent_hit_cancels,
        a.opponent_fighters == b.opponent_fighters,
        a.extra_hits == b.extra_hits,
    ensures
        spec_hits(a) <= spec_hits(b),
{
    assert(a.combat_value / 5 <= b.combat_value / 5) by (nonlinear_arith)
        requires
            a.combat_value <= b.combat_value,
    ;
}

/// One die of a unit's combat roll, as recorded in the log.
#[derive(Clone, Copy, Debug, PartialEq, Eq, Structural)]
pub struct UnitCombatRoll {
    pub value: u8,
    pub unit_type: UnitType,
    pub bonus: bool,
}

/// A side of the combat die: its value and the unit type it gives a bonus to.
#[derive(Clone, Copy, Debug, PartialEq, Eq, Structural)]
pub struct CombatDieRoll {
    pub value: u8,
    pub bonus: UnitType,
}

impl CombatDieRoll {
    pub fn new(value: u8, bonus: UnitType) -> (r: CombatDieRoll)
        ensures
            r == (CombatDieRoll { value, bonus }),
    {
        CombatDieRoll { value, bonus }
    }
}

/// A side that the combat die has.
pub open spec fn is_die_side(s: CombatDieRoll) -> bool {
    ||| s == CombatDieRoll { value: 1, bonus: UnitType::Leader }
    ||| s == CombatDieRoll { value: 2, bonus: UnitType::Cavalry }
    ||| s == CombatDieRoll { value: 2, bonus: UnitType::Elephant }
    ||| s == CombatDieRoll { value: 3, bonus: UnitType::Elephant }
    ||| s == CombatDieRoll { value: 3, bonus: UnitType::Infantry }
    ||| s == CombatDieRoll { value: 4, bonus: UnitType::Cavalry }
    ||| s == CombatDieRoll { value: 4, bonus: UnitType::Elephant }
    ||| s == CombatDieRoll { value: 5, bonus: UnitType::Cavalry }
    ||| s == CombatDieRoll { value: 5, bonus: UnitType::Infantry }
    ||| s == CombatDieRoll { value: 6, bonus: UnitType::Infantry }
}

/// A reroll ends on a die side without the leader, after the position it started at.
pub proof fn lemma_reroll_side(dice: Seq<u8>, pos: int)
    ensures
        spec_reroll(dice, pos) matches Some((s, p, l)) ==> is_die_side(s) && s.bonus != UnitType::Leader
            && pos < p <= dice.len() && l.len() > 0 && l.last() == logged(s, false),
    decreases dice.len() - pos,
{
    if 0 <= pos < dice.len() {
        lemma_reroll_side(dice, pos + 1);
    }
}

/// The number of sides of the combat die.
pub const COMBAT_DIE_SIDE_COUNT: usize = 12;

/// The twelve sides of the combat die.
pub open spec fn spec_die_side(i: int) -> CombatDieRoll {
    if i == 0 || i == 1 {
        CombatDieRoll { value: 1, bonus: UnitType::Leader }
    } else if i == 2 {
        CombatDieRoll { value: 2, bonus: UnitType::Cavalry }
    } else if i == 3 {
        CombatDieRoll { value: 2, bonus: UnitType::Elephant }
    } else if i == 4 {
        CombatDieRoll { value: 3, bonus: UnitType::Elephant }
    } else if i == 5 {
        CombatDieRoll { value: 3, bonus: UnitType::Infantry }
    } else if i == 6 {
        CombatDieRoll { value: 4, bonus: UnitType::Cavalry }
    } else if i == 7 {
        CombatDieRoll { value: 4, bonus: UnitType::Elephant }
    } else if i == 8 {
        CombatDieRoll { value: 5, bonus: UnitType::Cavalry }
    } else if i == 9 {
        CombatDieRoll { value: 5, bonus: UnitType::Infantry }
    } else {
        CombatDieRoll { value: 6, bonus: UnitType::Infantry }
    }
}

/// The combat die: its twelve faces in order are 1 and 1 with the leader, 2 cavalry,
/// 2 elephant, 3 elephant, 3 infantry, 4 cavalry, 4 elephant, 5 cavalry, 5 infantry, 6 infantry
/// and 6 infantry. So each value from 1 to 6 is on two neighbouring faces (face `i` shows
/// `i / 2 + 1`), the leader is on faces 0 and 1, cavalry on 2, 6 and 8, elephants on 3, 4 and
/// 7, and infantry on 5, 9, 10 and 11.
pub proof fn lemma_combat_die_faces()
    ensures
        spec_die_side(0) == (CombatDieRoll { value: 1, bonus: UnitType::Leader }),
        spec_die_side(1) == (CombatDieRoll { value: 1, bonus: UnitType::Leader }),
        spec_die_side(2) == (CombatDieRoll { value: 2, bonus: UnitType::Cavalry }),
        spec_die_side(3) == (CombatDieRoll { value: 2, bonus: UnitType::Elephant }),
        spec_die_side(4) == (CombatDieRoll { value: 3, bonus: UnitType::Elephant }),
        spec_die_side(5) == (CombatDieRoll { value: 3, bonus: UnitType::Infantry }),
        spec_die_side(6) == (CombatDieRoll { value: 4, bonus: UnitType::Cavalry }),
        spec_die_side(7) == (CombatDieRoll { value: 4, bonus: UnitType::Elephant }),
        spec_die_side(8) == (CombatDieRoll { value: 5, bonus: UnitType::Cavalry }),
        spec_die_side(9) == (CombatDieRoll { value: 5, bonus: UnitType::Infantry }),
        spec_die_side(10) == (CombatDieRoll { value: 6, bonus: UnitType::Infantry }),
        spec_die_side(11) == (CombatDieRoll { value: 6, bonus: UnitType::Infantry }),
        forall|i: int| 0 <= i < 12 ==> #[trigger] spec_die_side(i).value == i / 2 + 1,
        forall|i: int|
            0 <= i < 12 ==> (#[trigger] spec_die_side(i).bonus == UnitType::Leader <==> (i == 0 || i == 1)),
        forall|i: int|
            0 <= i < 12 ==> (#[trigger] spec_die_side(i).bonus == UnitType::Cavalry <==> (i == 2 || i == 6
                || i == 8)),
        forall|i: int|
            0 <= i < 12 ==> (#[trigger] spec_die_side(i).bonus == UnitType::Elephant <==> (i == 3 || i == 4
                || i == 7)),
        forall|i: int|
            0 <= i < 12 ==> (#[trigger] spec_die_side(i).bonus == UnitType::Infantry <==> (i == 5 || i == 9
                || i == 10 || i == 11)),
{
    assert forall|i: int| 0 <= i < 12 implies #[trigger] spec_die_side(i).value == i / 2 + 1 by {
        if i == 0 {} else if i == 1 {} else if i == 2 {} else if i == 3 {} else if i == 4 {}
        else if i == 5 {} else if i == 6 {} else if i == 7 {} else if i == 8 {} else if i == 9 {}
        else if i == 10 {} else {}
    }
}

/// The side with number `i` (0 to 11) of the combat die.
pub fn combat_die_side(i: usize) -> (r: CombatDieRoll)
    requires
        i < COMBAT_DIE_SIDE_COUNT,
    ensures
        r == spec_die_side(i as int),
{
    if i == 0 || i == 1 {
        CombatDieRoll::new(1, LEADER_UNIT)
    } else if i == 2 {
        CombatDieRoll::new(2, UnitType::Cavalry)
    } else if i == 3 {
        CombatDieRoll::new(2, UnitType::Elephant)
    } else if i == 4 {
        CombatDieRoll::new(3, UnitType::Elephant)
    } else if i == 5 {
        CombatDieRoll::new(3, UnitType::Infantry)
    } else if i == 6 {
        CombatDieRoll::new(4, UnitType::Cavalry)
    } else if i == 7 {
        CombatDieRoll::new(4, UnitType::Elephant)
    } else if i == 8 {
        CombatDieRoll::new(5, UnitType::Cavalry)
    } else if i == 9 {
        CombatDieRoll::new(5, UnitType::Infantry)
    } else {
        CombatDieRoll::new(6, UnitType::Infantry)
    }
}

/// The running state of a roll: dice consumed, units whose bonus is unused,
/// combat value and hit cancels so far, and the dice logged.
pub struct RollState {
    pub pos: int,
    pub units: Units,
    pub combat_value: int,
    pub hit_cancels: int,
    pub log: Seq<UnitCombatRoll>,
}

/// The log entry of a die showing `side`.
pub open spec fn logged(side: CombatDieRoll, bonus: bool) -> UnitCombatRoll {
    UnitCombatRoll { value: side.value, unit_type: side.bonus, bonus }
}

/// The side rolled after a used leader: dice are rerolled as long as they show the leader,
/// with the next position and the dice logged (each leader side marked as used). `None` when
/// the dice run out.
pub open spec fn spec_reroll(dice: Seq<u8>, pos: int) -> Option<(CombatDieRoll, int, Seq<UnitCombatRoll>)>
    decreases dice.len() - pos,
{
    if pos < 0 || pos >= dice.len() {
        None
    } else {
        let side = spec_die_side(dice[pos] as int);
        if side.bonus != UnitType::Leader {
            Some((side, pos + 1, seq![logged(side, false)]))
        } else {
            match spec_reroll(dice, pos + 1) {
                Some((s, p, l)) => Some((s, p, seq![logged(side, true)] + l)),
                None => None,
            }
        }
    }
}

/// One die with the leader's rerolls: a leader side with an unused leader (and abilities
/// not denied) uses up the leader and is rerolled until a non-leader side shows.
pub open spec fn spec_leader_roll(dice: Seq<u8>, pos: int, units: Units, deny: bool) -> Option<
    (CombatDieRoll, int, Units, Seq<UnitCombatRoll>),
> {
    if pos < 0 || pos >= dice.len() {
        None
    } else {
        let side = spec_die_side(dice[pos] as int);
        if deny || side.bonus != UnitType::Leader || units.leaders == 0 {
            Some((side, pos + 1, units, seq![logged(side, false)]))
        } else {
            match spec_reroll(dice, pos + 1) {
                Some((s, p, l)) => Some((s, p, units.with_removed(UnitType::Leader), seq![logged(side, true)] + l)),
                None => None,
            }
        }
    }
}

/// One die of a roll: its value counts, and a side naming a unit type that still has an
/// unused bonus uses it: infantry +1, cavalry +2, elephants cancel a hit instead of counting.
pub open spec fn spec_roll_step(dice: Seq<u8>, s: RollState, deny: bool) -> Option<RollState> {
    match spec_leader_roll(dice, s.pos, s.units, deny) {
        None => None,
        Some((side, p, u, l)) => {
            let cv = s.combat_value + side.value;
            let used = s.log + l.update(l.len() - 1, logged(side, true));
            if u.count(side.bonus) > 0 && !deny {
                let u2 = u.with_removed(side.bonus);
                match side.bonus {
                    UnitType::Infantry => Some(RollState { pos: p, units: u2, combat_value: cv + 1, hit_cancels: s.hit_cancels, log: used }),
                    UnitType::Cavalry => Some(RollState { pos: p, units: u2, combat_value: cv + 2, hit_cancels: s.hit_cancels, log: used }),
                    UnitType::Elephant => Some(RollState { pos: p, units: u2, combat_value: cv - side.value, hit_cancels: s.hit_cancels + 1, log: used }),
                    _ => Some(RollState { pos: p, units: u2, combat_value: cv, hit_cancels: s.hit_cancels, log: s.log + l }),
                }
            } else {
                Some(RollState { pos: p, units: u, combat_value: cv, hit_cancels: s.hit_cancels, log: s.log + l })
            }
        },
    }
}

/// `n` dice of a roll.
pub open spec fn spec_roll_steps(dice: Seq<u8>, s: RollState, deny: bool, n: nat) -> Option<RollState>
    decreases n,
{
    if n == 0 {
        Some(s)
    } else {
        match spec_roll_step(dice, s, deny) {
            None => None,
            Some(s2) => spec_roll_steps(dice, s2, deny, (n - 1) as nat),
        }
    }
}

/// The outcome of a roll.
#[derive(Clone, Copy, Debug, PartialEq, Eq, Structural)]
pub struct CombatRolls {
    pub combat_value: i8,
    pub hit_cancels: u8,
    pub dice_used: usize,
}

/// The dice are side numbers of the combat die.
pub open spec fn valid_dice(dice: Seq<u8>) -> bool {
    forall|k: int| 0 <= k < dice.len() ==> #[trigger] dice[k] < 12
}

fn roll_die(dice: &[u8], pos: &mut usize, roll_log: &mut Vec<UnitCombatRoll>) -> (r: Option<CombatDieRoll>)
    requires
        valid_dice(dice@),
    ensures
        *old(pos) < dice@.len() ==> r == Some(spec_die_side(dice@[*old(pos) as int] as int))
            && *final(pos) == *old(pos) + 1 && final(roll_log)@ == old(roll_log)@.push(
            UnitCombatRoll { value: r->0.value, unit_type: r->0.bonus, bonus: false },
        ),
        *old(pos) >= dice@.len() ==> r is None && *final(pos) == *old(pos) && final(roll_log)@
            == old(roll_log)@,
{
    if *pos >= dice.len() {
        return None;
    }
    let side = combat_die_side(dice[*pos] as usize);
    *pos = *pos + 1;
    roll_log.push(UnitCombatRoll { value: side.value, unit_type: side.bonus, bonus: false });
    Some(side)
}

/// Marks the last logged die as having used a bonus.
fn add_bonus(roll_log: &mut Vec<UnitCombatRoll>)
    requires
        old(roll_log)@.len() > 0,
    ensures
        final(roll_log)@ == old(roll_log)@.update(
            old(roll_log)@.len() - 1,
            UnitCombatRoll { bonus: true, ..old(roll_log)@.last() },
        ),
{
    let n = roll_log.len();
    let mut e = roll_log[n - 1];
    e.bonus = true;
    roll_log.set(n - 1, e);
}

/// The log entries of the leader sides at positions `from` up to `to`, each marked as used.
pub open spec fn leader_run(dice: Seq<u8>, from: int, to: int) -> Seq<UnitCombatRoll> {
    Seq::new((to - from) as nat, |i: int| logged(spec_die_side(dice[from + i] as int), true))
}

/// A reroll with `pre` logged before it.
pub open spec fn after_log(
    pre: Seq<UnitCombatRoll>,
    r: Option<(CombatDieRoll, int, Seq<UnitCombatRoll>)>,
) -> Option<(CombatDieRoll, int, Seq<UnitCombatRoll>)> {
    match r {
        Some((s, p, l)) => Some((s, p, pre + l)),
        None => None,
    }
}

fn dice_roll_with_leader_reroll(
    dice: &[u8],
    pos: &mut usize,
    unit_types: &mut Units,
    deny_combat_abilities: bool,
    roll_log: &mut Vec<UnitCombatRoll>,
) -> (r: Option<CombatDieRoll>)
    requires
        valid_dice(dice@),
    ensures
        match spec_leader_roll(dice@, *old(pos) as int, *old(unit_types), deny_combat_abilities) {
            None => r is None,
            Some((side, p, u, l)) => r == Some(side) && *final(pos) == p && *final(unit_types) == u
                && final(roll_log)@ == old(roll_log)@ + l,
        },
        r is Some ==> is_die_side(r->0),
        r is Some ==> *final(pos) > *old(pos),
{
    proof {
        lemma_reroll_side(dice@, *old(pos) as int + 1);
    }
    let side = match roll_die(dice, pos, roll_log) {
        Some(s) => s,
        None => return None,
    };
    if deny_combat_abilities || side.bonus != LEADER_UNIT || unit_types.get_amount(&LEADER_UNIT) == 0 {
        return Some(side);
    }
    unit_types.remove_unit(&LEADER_UNIT);
    let ghost start = *old(pos) as int;
    proof {
        assert(leader_run(dice@, start, *pos as int - 1) =~= Seq::<UnitCombatRoll>::empty());
        assert(roll_log@ =~= old(roll_log)@ + leader_run(dice@, start, *pos as int - 1) + seq![
            logged(spec_die_side(dice@[*pos as int - 1] as int), false),
        ]);
        assert(leader_run(dice@, start + 1, *pos as int) =~= Seq::<UnitCombatRoll>::empty());
        assert(after_log(Seq::<UnitCombatRoll>::empty(), spec_reroll(dice@, *pos as int)) =~= spec_reroll(dice@, *pos as int)) by {
            match spec_reroll(dice@, *pos as int) {
                Some((s, p, l)) => {
                    assert(Seq::<UnitCombatRoll>::empty() + l =~= l);
                },
                None => {},
            }
        }
    }
    loop
        invariant
            valid_dice(dice@),
            start == *old(pos),
            *pos <= dice@.len(),
            *pos > start,
            *unit_types == old(unit_types).with_removed(UnitType::Leader),
            old(unit_types).leaders > 0,
            !deny_combat_abilities,
            spec_die_side(dice@[start] as int).bonus == UnitType::Leader,
            spec_die_side(dice@[*pos as int - 1] as int).bonus == UnitType::Leader,
            roll_log@ == old(roll_log)@ + leader_run(dice@, start, *pos as int - 1) + seq![
                logged(spec_die_side(dice@[*pos as int - 1] as int), false),
            ],
            spec_reroll(dice@, start + 1) == after_log(leader_run(dice@, start + 1, *pos as int), spec_reroll(dice@, *pos as int)),
        decreases dice@.len() - *pos,
    {
        let ghost before = roll_log@;
        add_bonus(roll_log);
        let ghost p0 = *pos as int;
        proof {
            assert(roll_log@ =~= old(roll_log)@ + leader_run(dice@, start, p0));
        }
        let side = match roll_die(dice, pos, roll_log) {
            Some(s) => s,
            None => {
                proof {
                    assert(spec_reroll(dice@, p0) is None);
                }
                return None;
            },
        };
        let ghost first = logged(spec_die_side(dice@[start] as int), true);
        if side.bonus != LEADER_UNIT {
            proof {
                assert(spec_reroll(dice@, p0) == Some((side, p0 + 1, seq![logged(side, false)])));
                assert(seq![first] + (leader_run(dice@, start + 1, p0) + seq![logged(side, false)]) =~= leader_run(
                    dice@,
                    start,
                    p0,
                ) + seq![logged(side, false)]);
            }
            return Some(side);
        }
        proof {
            let rest = spec_reroll(dice@, p0 + 1);
            assert(spec_reroll(dice@, p0) == after_log(seq![logged(side, true)], rest));
            assert(leader_run(dice@, start + 1, p0) + seq![logged(side, true)] =~= leader_run(dice@, start + 1, p0 + 1));
            match rest {
                Some((s2, p2, l2)) => {
                    assert(leader_run(dice@, start + 1, p0) + (seq![logged(side, true)] + l2) =~= leader_run(
                        dice@,
                        start + 1,
                        p0 + 1,
                    ) + l2);
                },
                None => {},
            }
            assert(roll_log@ =~= old(roll_log)@ + leader_run(dice@, start, *pos as int - 1) + seq![
                logged(spec_die_side(dice@[*pos as int - 1] as int), false),
            ]);
        }
    }
}

/// Every addition to the combat value during the remaining `n` dice of a roll stays within
/// `i8`.
pub open spec fn roll_fits(dice: Seq<u8>, s: RollState, deny: bool, n: nat) -> bool
    decreases n,
{
    if n == 0 {
        true
    } else {
        match spec_leader_roll(dice, s.pos, s.units, deny) {
            None => true,
            Some((side, p, u, l)) => {
                &&& s.combat_value + side.value <= i8::MAX
                &&& match spec_roll_step(dice, s, deny) {
                    Some(s2) => s2.combat_value <= i8::MAX && roll_fits(dice, s2, deny, (n - 1) as nat),
                    None => true,
                }
            },
        }
    }
}

/// A roll whose additions fit ends with a combat value within `i8`.
proof fn lemma_roll_fits_result(dice: Seq<u8>, s: RollState, deny: bool, n: nat)
    requires
        roll_fits(dice, s, deny, n),
        s.combat_value <= i8::MAX,
    ensures
        spec_roll_steps(dice, s, deny, n) matches Some(e) ==> e.combat_value <= i8::MAX,
    decreases n,
{
    if n > 0 {
        match spec_roll_step(dice, s, deny) {
            Some(s2) => {
                lemma_roll_fits_result(dice, s2, deny, (n - 1) as nat);
            },
            None => {},
        }
    }
}

/// The state a roll starts from.
pub open spec fn roll_start(units: Seq<UnitType>, extra_combat_value: i8) -> RollState {
    RollState {
        pos: 0,
        units: Units::spec_from_types(units),
        combat_value: extra_combat_value as int,
        hit_cancels: 0,
        log: Seq::empty(),
    }
}

/// One die rolled for one unit that is not a leader: the side's value counts, and when the
/// side shows the unit's own type its bonus applies: infantry +1, cavalry +2, and an
/// elephant cancels a hit in place of counting the value.
pub proof fn lemma_single_unit_die(t: UnitType, d: u8)
    requires
        d < 12,
        t != UnitType::Leader,
    ensures
        ({
            let side = spec_die_side(d as int);
            let own = side.bonus == t;
            spec_roll_steps(seq![d], roll_start(seq![t], 0), false, 1) matches Some(e)
                && e.pos == 1
                && e.combat_value == (if own && t == UnitType::Elephant {
                    0
                } else if own && t == UnitType::Infantry {
                    side.value + 1
                } else if own && t == UnitType::Cavalry {
                    side.value + 2
                } else {
                    side.value as int
                })
                && e.hit_cancels == (if own && t == UnitType::Elephant { 1int } else { 0int })
        }),
{
    let s = roll_start(seq![t], 0);
    crate::unit::lemma_seq_count_push(Seq::<UnitType>::empty(), t, t);
    assert(seq![t] =~= Seq::<UnitType>::empty().push(t));
    assert forall|u: UnitType| seq_count(seq![t], u) == if t == u { 1nat } else { 0nat } by {
        crate::unit::lemma_seq_count_push(Seq::<UnitType>::empty(), t, u);
    }
    assert(s.units.count(t) == 1);
    assert(s.units.leaders == 0);
    assert(forall|u: UnitType| u != t ==> s.units.count(u) == 0);
    reveal_with_fuel(spec_roll_steps, 2);
    assert(spec_roll_step(seq![d], s, false) is Some);
}

/// Rolls `extra_dies` dice plus one die per fighting unit, taking the sides from `dice`, and
/// logs each die rolled. `None` when the dice run out before the roll is complete.
pub fn roll(
    units: &[UnitType],
    extra_dies: u8,
    extra_combat_value: i8,
    deny_combat_abilities: bool,
    dice: &[u8],
    roll_log: &mut Vec<UnitCombatRoll>,
) -> (r: Option<CombatRolls>)
    requires
        valid_dice(dice@),
        extra_dies + units@.len() <= u8::MAX,
        roll_fits(
            dice@,
            roll_start(units@, extra_combat_value),
            deny_combat_abilities,
            (extra_dies + units@.len()) as nat,
        ),
    ensures
        match spec_roll_steps(
            dice@,
            roll_start(units@, extra_combat_value),
            deny_combat_abilities,
            (extra_dies + units@.len()) as nat,
        ) {
            None => r is None,
            Some(s) => r == Some(
                CombatRolls {
                    combat_value: if s.combat_value < 0 {
                        0
                    } else {
                        s.combat_value as i8
                    },
                    hit_cancels: s.hit_cancels as u8,
                    dice_used: s.pos as usize,
                },
            ) && final(roll_log)@ == old(roll_log)@ + s.log,
        },
{
    let mut dice_rolls: u8 = extra_dies;
    let mut i: usize = 0;
    while i < units.len()
        invariant
            0 <= i <= units@.len(),
            dice_rolls == extra_dies + i,
            extra_dies + units@.len() <= u8::MAX,
        decreases units@.len() - i,
    {
        dice_rolls = dice_rolls + 1;
        i = i + 1;
    }
    proof {
        crate::unit::lemma_from_types_fits(units@);
    }
    let mut unit_types = Units::from_types(units);
    let mut pos: usize = 0;
    let mut combat_value: i8 = extra_combat_value;
    let mut hit_cancels: u8 = 0;
    let ghost init = roll_start(units@, extra_combat_value);
    let ghost start_log = roll_log@;
    let ghost mut cur_log: Seq<UnitCombatRoll> = Seq::empty();
    let mut k: u8 = 0;
    proof {
        assert(roll_log@ =~= start_log + cur_log);
        assert(init == RollState {
            pos: pos as int,
            units: unit_types,
            combat_value: combat_value as int,
            hit_cancels: hit_cancels as int,
            log: cur_log,
        });
    }
    while k < dice_rolls
        invariant
            0 <= k <= dice_rolls,
            valid_dice(dice@),
            dice_rolls == extra_dies + units@.len(),
            hit_cancels <= k,
            roll_fits(
                dice@,
                RollState {
                    pos: pos as int,
                    units: unit_types,
                    combat_value: combat_value as int,
                    hit_cancels: hit_cancels as int,
                    log: cur_log,
                },
                deny_combat_abilities,
                (dice_rolls - k) as nat,
            ),
            init == roll_start(units@, extra_combat_value),
            roll_log@ == start_log + cur_log,
            spec_roll_steps(dice@, init, deny_combat_abilities, dice_rolls as nat) == spec_roll_steps(
                dice@,
                RollState {
                    pos: pos as int,
                    units: unit_types,
                    combat_value: combat_value as int,
                    hit_cancels: hit_cancels as int,
                    log: cur_log,
                },
                deny_combat_abilities,
                (dice_rolls - k) as nat,
            ),
        decreases dice_rolls - k,
    {
        let ghost before = RollState {
            pos: pos as int,
            units: unit_types,
            combat_value: combat_value as int,
            hit_cancels: hit_cancels as int,
            log: cur_log,
        };
        proof {
            lemma_leader_roll_pos(dice@, pos as int, unit_types, deny_combat_abilities);
        }
        let side = match dice_roll_with_leader_reroll(dice, &mut pos, &mut unit_types, deny_combat_abilities, roll_log) {
            Some(s) => s,
            None => {
                proof {
                    assert(spec_roll_step(dice@, before, deny_combat_abilities) is None);
                    assert(spec_roll_steps(dice@, before, deny_combat_abilities, (dice_rolls - k) as nat) is None);
                }
                return None;
            },
        };
        let ghost l = roll_log@.subrange((start_log.len() + cur_log.len()) as int, roll_log@.len() as int);
        proof {
            let lr = spec_leader_roll(dice@, before.pos, before.units, deny_combat_abilities);
            assert(lr is Some);
            let ll = match lr {
                Some((_, _, _, x)) => x,
                None => Seq::empty(),
            };
            assert(roll_log@ == start_log + cur_log + ll);
            assert(l =~= ll);
            assert(l.len() > 0 && l.last() == logged(side, false));
        }
        let value = side.value;
        combat_value = combat_value + value as i8;
        let mut used = false;
        if unit_types.has_unit(&side.bonus) && !deny_combat_abilities {
            unit_types.remove_unit(&side.bonus);
            match side.bonus {
                UnitType::Infantry => {
                    combat_value = combat_value + 1;
                    add_bonus(roll_log);
                    used = true;
                },
                UnitType::Cavalry => {
                    combat_value = combat_value + 2;
                    add_bonus(roll_log);
                    used = true;
                },
                UnitType::Elephant => {
                    hit_cancels = hit_cancels + 1;
                    combat_value = combat_value - value as i8;
                    add_bonus(roll_log);
                    used = true;
                },
                _ => {},
            }
        }
        proof {
            if used {
                cur_log = cur_log + l.update(l.len() - 1, logged(side, true));
                assert(roll_log@ =~= start_log + cur_log);
            } else {
                cur_log = cur_log + l;
                assert(roll_log@ =~= start_log + cur_log);
            }
            let after = RollState {
                pos: pos as int,
                units: unit_types,
                combat_value: combat_value as int,
                hit_cancels: hit_cancels as int,
                log: cur_log,
            };
            assert(spec_roll_step(dice@, before, deny_combat_abilities) == Some(after));
        }
        k = k + 1;
    }
    proof {
        let cur = RollState {
            pos: pos as int,
            units: unit_types,
            combat_value: combat_value as int,
            hit_cancels: hit_cancels as int,
            log: cur_log,
        };
        assert(spec_roll_steps(dice@, cur, deny_combat_abilities, 0) == Some(cur));
    }
    let final_value: i8 = if combat_value < 0 {
        0
    } else {
        combat_value
    };
    Some(CombatRolls { combat_value: final_value, hit_cancels, dice_used: pos })
}

/// One side's roll in a combat round.
#[derive(Debug)]
pub struct CombatRoundStats {
    pub player: usize,
    pub fighters: u8,
    pub rolls: Vec<UnitCombatRoll>,
    pub combat_value: u8,
    pub hit_cancels: u8,
    pub strength: CombatStrength,
}

impl CombatRoundStats {
    /// Rolls for the fighting units of `player` with the strength changes of the round,
    /// taking the die sides from `dice`. `None` when the dice run out.
    pub fn roll(
        player: usize,
        fighting: &[UnitType],
        strength: CombatStrength,
        dice: &[u8],
    ) -> (r: Option<CombatRoundStats>)
        requires
            valid_dice(dice@),
            strength.extra_dies + fighting@.len() <= u8::MAX,
            roll_fits(
                dice@,
                roll_start(fighting@, strength.extra_combat_value),
                strength.deny_combat_abilities,
                (strength.extra_dies + fighting@.len()) as nat,
            ),
            spec_roll_steps(
                dice@,
                roll_start(fighting@, strength.extra_combat_value),
                strength.deny_combat_abilities,
                (strength.extra_dies + fighting@.len()) as nat,
            ) matches Some(e) ==> e.hit_cancels + strength.hit_cancels <= u8::MAX,
        ensures
            match spec_roll_steps(
                dice@,
                roll_start(fighting@, strength.extra_combat_value),
                strength.deny_combat_abilities,
                (strength.extra_dies + fighting@.len()) as nat,
            ) {
                None => r is None,
                Some(s) => r matches Some(st) && st.player == player && st.fighters == fighting@.len()
                    && st.combat_value == (if s.combat_value < 0 { 0 } else { s.combat_value })
                    && st.hit_cancels == s.hit_cancels + strength.hit_cancels && st.rolls@ == s.log
                    && st.strength == strength,
            },
    {
        let mut unit_rolls: Vec<UnitCombatRoll> = Vec::new();
        let rolls = match roll(
            fighting,
            strength.extra_dies,
            strength.extra_combat_value,
            strength.deny_combat_abilities,
            dice,
            &mut unit_rolls,
        ) {
            Some(r) => r,
            None => return None,
        };
        proof {
            lemma_roll_bounds(
                dice@,
                roll_start(fighting@, strength.extra_combat_value),
                strength.deny_combat_abilities,
                (strength.extra_dies + fighting@.len()) as nat,
            );
            lemma_roll_fits_result(
                dice@,
                roll_start(fighting@, strength.extra_combat_value),
                strength.deny_combat_abilities,
                (strength.extra_dies + fighting@.len()) as nat,
            );
            assert(unit_rolls@ =~= Seq::<UnitCombatRoll>::empty() + unit_rolls@);
        }
        let combat_value = rolls.combat_value as u8;
        let hit_cancels = rolls.hit_cancels + strength.hit_cancels;
        let fighters = fighting.len() as u8;
        let dice_len = dice.len();
        proof {
            let init = roll_start(fighting@, strength.extra_combat_value);
            let e = spec_roll_steps(dice@, init, strength.deny_combat_abilities, (strength.extra_dies + fighting@.len()) as nat)->0;
            assert(e.pos <= dice_len);
        }
        Some(CombatRoundStats { strength, player, rolls: unit_rolls, combat_value, hit_cancels, fighters })
    }

    /// The hits of this side against `opponent`.
    pub fn determine_hits(&self, opponent: &CombatRoundStats, tactics_card: Option<u8>) -> (r: CombatHits)
        ensures
            r == (CombatHits {
                tactics_card,
                opponent_hit_cancels: opponent.hit_cancels,
                opponent_fighters: opponent.fighters,
                combat_value: self.combat_value,
                extra_hits: 0,
            }),
    {
        CombatHits::new(tactics_card, opponent.hit_cancels, opponent.fighters, self.combat_value)
    }
}

/// A roll of `n` dice cancels at most `n` hits.
pub proof fn lemma_roll_bounds(dice: Seq<u8>, s: RollState, deny: bool, n: nat)
    ensures
        spec_roll_steps(dice, s, deny, n) matches Some(e) ==> s.hit_cancels <= e.hit_cancels
            <= s.hit_cancels + n && e.pos >= s.pos && (n > 0 ==> e.pos <= dice.len()) && s.combat_value <= e.combat_value
            <= s.combat_value + 7 * n,
    decreases n,
{
    if n > 0 {
        match spec_roll_step(dice, s, deny) {
            Some(s2) => {
                lemma_leader_roll_pos(dice, s.pos, s.units, deny);
                lemma_roll_bounds(dice, s2, deny, (n - 1) as nat);
            },
            None => {},
        }
    }
}

/// A die with rerolls moves forward in the dice and shows a side of the die.
pub proof fn lemma_leader_roll_pos(dice: Seq<u8>, pos: int, units: Units, deny: bool)
    ensures
        spec_leader_roll(dice, pos, units, deny) matches Some((side, p, _, l)) ==> p > pos && p <= dice.len()
            && is_die_side(side) && l.len() > 0 && l.last() == logged(side, false),
{
    lemma_reroll_side(dice, pos + 1);
}

} // verus!
