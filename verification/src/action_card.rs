use vstd::prelude::*;

use crate::advance::Advance;
use crate::card::discard_card;
use crate::combat_stats::CombatStats;
use crate::position::Position;
use crate::city::{city_size, City};
use crate::unit::{UnitType, Units};

verus! {

/// Who plays a civil card: the active player alone, or every human player.
#[derive(Clone, Copy, Debug, PartialEq, Eq, Structural)]
pub enum CivilCardTarget {
    ActivePlayer,
    AllPlayers,
}

/// The choices made while an action card is played.
#[derive(Clone, Debug)]
pub struct ActionCardInfo {
    pub id: u8,
    pub selected_position: Option<Position>,
    pub selected_advance: Option<Advance>,
    pub selected_positions: Vec<Position>,
    pub selected_player: Option<usize>,
    pub answer: Option<bool>,
    pub satisfying_action: Option<usize>,
    /// Set only when all players play the card.
    pub active_player: Option<usize>,
}

impl ActionCardInfo {
    pub fn new(id: u8, satisfying_action: Option<usize>, active_player: Option<usize>) -> (r: ActionCardInfo)
        ensures
            r.id == id,
            r.satisfying_action == satisfying_action,
            r.active_player == active_player,
            r.selected_position is None,
            r.selected_advance is None,
            r.selected_positions@.len() == 0,
            r.selected_player is None,
            r.answer is None,
    {
        ActionCardInfo {
            id,
            selected_position: None,
            selected_positions: Vec::new(),
            selected_player: None,
            selected_advance: None,
            answer: None,
            satisfying_action,
            active_player,
        }
    }
}

/// The card printed on the same sheet as `id`: cards come in pairs 1-2, 3-4, ...
pub open spec fn spec_sister_card(id: u8) -> int {
    if id % 2 == 0 {
        id - 1
    } else {
        id + 1
    }
}

/// The other card of the pair of `id`.
fn sister_card(id: u8) -> (r: u8)
    requires
        0 < id < u8::MAX,
    ensures
        r == spec_sister_card(id),
{
    if id % 2 == 0 {
        id - 1
    } else {
        id + 1
    }
}

/// Whether `v` holds `x`.
fn contains_u8(v: &Vec<u8>, x: u8) -> (r: bool)
    ensures
        r == v@.contains(x),
{
    let mut i: usize = 0;
    while i < v.len()
        invariant
            0 <= i <= v@.len(),
            forall|k: int| 0 <= k < i ==> v@[k] != x,
        decreases v@.len() - i,
    {
        if v[i] == x {
            return true;
        }
        i = i + 1;
    }
    false
}

/// A battle of this turn's log satisfies a card's combat requirement: it has combat
/// statistics, the requirement holds for it, and the sister card did not claim it.
pub open spec fn satisfies(log: Seq<Option<CombatStats>>, requirement: Seq<bool>, id: u8, i: int) -> bool {
    match log[i] {
        Some(stats) => requirement[i] && !stats.claimed_action_cards@.contains(spec_sister_card(id) as u8),
        None => false,
    }
}

/// The first entry of the current turn's log that satisfies the combat requirement of card
/// `action_card_id` (`requirement[i]` tells whether the requirement holds for the battle of
/// entry `i`).
pub fn combat_requirement_met(
    log: &[Option<CombatStats>],
    requirement: &[bool],
    action_card_id: u8,
) -> (r: Option<usize>)
    requires
        requirement@.len() == log@.len(),
        0 < action_card_id < u8::MAX,
    ensures
        match r {
            Some(i) => i < log@.len() && satisfies(log@, requirement@, action_card_id, i as int) && forall|k: int|
                0 <= k < i ==> !#[trigger] satisfies(log@, requirement@, action_card_id, k),
            None => forall|k: int| 0 <= k < log@.len() ==> !#[trigger] satisfies(log@, requirement@, action_card_id, k),
        },
{
    let sister = sister_card(action_card_id);
    let mut i: usize = 0;
    while i < log.len()
        invariant
            0 <= i <= log@.len(),
            requirement@.len() == log@.len(),
            sister == spec_sister_card(action_card_id),
            forall|k: int| 0 <= k < i ==> !#[trigger] satisfies(log@, requirement@, action_card_id, k),
        decreases log@.len() - i,
    {
        let ok = match &log[i] {
            Some(stats) => requirement[i] && !contains_u8(&stats.claimed_action_cards, sister),
            None => false,
        };
        if ok {
            return Some(i);
        }
        i = i + 1;
    }
    None
}

/// The players who play a card: the active player, or all human players (`human_players`,
/// listed from the active player on).
pub fn action_card_players(target: CivilCardTarget, player_index: usize, human_players: Vec<usize>) -> (r: Vec<usize>)
    ensures
        r@ == match target {
            CivilCardTarget::ActivePlayer => seq![player_index],
            CivilCardTarget::AllPlayers => human_players@,
        },
{
    match target {
        CivilCardTarget::ActivePlayer => vec![player_index],
        CivilCardTarget::AllPlayers => human_players,
    }
}

/// The choices of a card being played: the battle that satisfies its requirement, and the
/// active player when all players play it.
pub fn play_action_card_info(
    id: u8,
    satisfying_action: Option<usize>,
    target: CivilCardTarget,
    player_index: usize,
) -> (r: ActionCardInfo)
    ensures
        r.id == id,
        r.satisfying_action == satisfying_action,
        r.active_player == if target == CivilCardTarget::AllPlayers {
            Some(player_index)
        } else {
            None
        },
        r.selected_position is None,
        r.selected_advance is None,
        r.selected_positions@.len() == 0,
        r.selected_player is None,
        r.answer is None,
{
    let active = if target == CivilCardTarget::AllPlayers {
        Some(player_index)
    } else {
        None
    };
    ActionCardInfo::new(id, satisfying_action, active)
}

/// The index of the first `card` in `cards`.
pub open spec fn first_index(cards: Seq<u8>, card: u8) -> int
    decreases cards.len(),
{
    if cards.len() == 0 {
        -1
    } else if cards[0] == card {
        0
    } else {
        let r = first_index(cards.drop_first(), card);
        if r < 0 {
            -1
        } else {
            r + 1
        }
    }
}

proof fn lemma_first_index(cards: Seq<u8>, card: u8)
    requires
        cards.contains(card),
    ensures
        0 <= first_index(cards, card) < cards.len(),
        cards[first_index(cards, card)] == card,
        forall|k: int| 0 <= k < first_index(cards, card) ==> cards[k] != card,
    decreases cards.len(),
{
    if cards[0] != card {
        let j = choose|j: int| 0 <= j < cards.len() && cards[j] == card;
        assert(cards.drop_first()[j - 1] == card);
        lemma_first_index(cards.drop_first(), card);
        assert forall|k: int| 0 <= k < first_index(cards, card) implies cards[k] != card by {
            if k > 0 {
                assert(cards[k] == cards.drop_first()[k - 1]);
            }
        }
    }
}

/// Discards action card `card` from the hand: the first such card leaves `action_cards`
/// and goes on the discard pile (on top with the Great Mausoleum, at the bottom otherwise).
pub fn discard_action_card(
    action_cards: &mut Vec<u8>,
    discarded: &mut Vec<u8>,
    card: u8,
    great_mausoleum: bool,
)
    requires
        old(action_cards)@.contains(card),
    ensures
        final(action_cards)@ == old(action_cards)@.remove(first_index(old(action_cards)@, card)),
        final(discarded)@ == if great_mausoleum {
            seq![card] + old(discarded)@
        } else {
            old(discarded)@.push(card)
        },
{
    proof {
        lemma_first_index(action_cards@, card);
    }
    let mut i: usize = 0;
    while i < action_cards.len() && action_cards[i] != card
        invariant
            0 <= i <= action_cards@.len(),
            action_cards@ == old(action_cards)@,
            forall|k: int| 0 <= k < i ==> action_cards@[k] != card,
            0 <= first_index(action_cards@, card) < action_cards@.len(),
            action_cards@[first_index(action_cards@, card)] == card,
            forall|k: int| 0 <= k < first_index(action_cards@, card) ==> action_cards@[k] != card,
        decreases action_cards@.len() - i,
    {
        i = i + 1;
    }
    assert(i == first_index(action_cards@, card));
    let c = action_cards.remove(i);
    discard_card(discarded, c, great_mausoleum);
}

/// A player gains an action card.
pub fn gain_action_card(action_cards: &mut Vec<u8>, action_card: u8)
    ensures
        final(action_cards)@ == old(action_cards)@.push(action_card),
{
    action_cards.push(action_card);
}

/// The barbarian cities that Cultural Takeover lets a player influence: those of size 1.
pub open spec fn takeover_targets(cities: Seq<City>) -> Seq<Position> {
    cities.filter(|c: City| city_size(&c) == 1).map_values(|c: City| c.position)
}

/// The positions of the barbarian cities of size 1 (the cities in order).
pub fn cultural_takeover_targets(barbarian_cities: &Vec<City>) -> (r: Vec<Position>)
    requires
        forall|i: int| 0 <= i < barbarian_cities@.len() ==> (#[trigger] barbarian_cities@[i]).countable(),
    ensures
        r@ == takeover_targets(barbarian_cities@),
{
    let ghost f = |c: City| city_size(&c) == 1;
    let mut r: Vec<Position> = Vec::new();
    let mut i: usize = 0;
    while i < barbarian_cities.len()
        invariant
            i <= barbarian_cities@.len(),
            forall|k: int| 0 <= k < barbarian_cities@.len() ==> (#[trigger] barbarian_cities@[k]).countable(),
            f == (|c: City| city_size(&c) == 1),
            r@ == barbarian_cities@.take(i as int).filter(f).map_values(|c: City| c.position),
        decreases barbarian_cities@.len() - i,
    {
        proof {
            assert(barbarian_cities@.take(i as int + 1).drop_last() =~= barbarian_cities@.take(i as int));
            reveal(Seq::filter);
        }
        let c = &barbarian_cities[i];
        if c.size() == 1 {
            r.push(c.position);
        }
        proof {
            let s = barbarian_cities@.take(i as int);
            let t = barbarian_cities@.take(i as int + 1);
            if f(*c) {
                assert(t.filter(f) =~= s.filter(f).push(*c));
                assert(t.filter(f).map_values(|c: City| c.position) =~= s.filter(f).map_values(
                    |c: City| c.position,
                ).push(c.position));
            } else {
                assert(t.filter(f) =~= s.filter(f));
            }
        }
        i = i + 1;
    }
    proof {
        assert(barbarian_cities@.take(i as int) =~= barbarian_cities@);
    }
    r
}

/// The unit types offered after a Cultural Takeover: a Settler and an Infantry, as far as
/// the player has such units left.
pub open spec fn takeover_unit_types(available: Units) -> Seq<UnitType> {
    (if available.settlers > 0 { seq![UnitType::Settler] } else { seq![] }) + (if available.infantry
        > 0 {
        seq![UnitType::Infantry]
    } else {
        seq![]
    })
}

/// After a successful Cultural Takeover of a barbarian city, the barbarian units there
/// (`barbarian_units_at`) are removed (returned), and where there were any, the player is
/// offered one of its available Settler or Infantry to place there (`None`: no offer).
pub fn takeover_unit_choices(barbarian_units_at: &Vec<u32>, available: &Units) -> (r: (Vec<u32>, Option<Vec<UnitType>>))
    ensures
        r.0@ == barbarian_units_at@,
        match r.1 {
            Some(t) => barbarian_units_at@.len() > 0 && t@ == takeover_unit_types(*available),
            None => barbarian_units_at@.len() == 0,
        },
{
    let mut removed: Vec<u32> = Vec::new();
    let mut i: usize = 0;
    while i < barbarian_units_at.len()
        invariant
            i <= barbarian_units_at@.len(),
            removed@ == barbarian_units_at@.take(i as int),
        decreases barbarian_units_at@.len() - i,
    {
        removed.push(barbarian_units_at[i]);
        proof {
            assert(barbarian_units_at@.take(i as int + 1) =~= barbarian_units_at@.take(i as int).push(
                barbarian_units_at@[i as int],
            ));
        }
        i = i + 1;
    }
    proof {
        assert(barbarian_units_at@.take(i as int) =~= barbarian_units_at@);
    }
    if removed.len() == 0 {
        return (removed, None);
    }
    let mut t: Vec<UnitType> = Vec::new();
    if available.settlers > 0 {
        t.push(UnitType::Settler);
    }
    if available.infantry > 0 {
        t.push(UnitType::Infantry);
    }
    proof {
        assert(t@ =~= takeover_unit_types(*available));
    }
    (removed, Some(t))
}

} // verus!
