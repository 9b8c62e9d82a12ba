use vstd::prelude::*;

use vstd::string::StringExecFns;
use crate::wonder::Wonder;

verus! {

/// The kinds of cards a player can hold.
#[derive(Clone, Copy, Debug, PartialEq, Eq, Structural)]
pub enum HandCardType {
    Action,
    Objective,
    Wonder,
}

impl HandCardType {
    pub fn get_all() -> (r: Vec<HandCardType>)
        ensures
            r@ == seq![HandCardType::Action, HandCardType::Objective, HandCardType::Wonder],
    {
        vec![HandCardType::Action, HandCardType::Objective, HandCardType::Wonder]
    }

    /// How a card of this kind is named when its face is hidden.
    pub fn to_string(&self) -> (r: String)
        ensures
            r@ == (match *self {
                HandCardType::Action => "an action card"@,
                HandCardType::Objective => "an objective card"@,
                HandCardType::Wonder => "a wonder card"@,
            }),
    {
        let s: &str = match self {
            HandCardType::Action => "an action card",
            HandCardType::Objective => "an objective card",
            HandCardType::Wonder => "a wonder card",
        };
        s.to_owned()
    }
}

/// A card in a hand.
#[derive(Clone, Copy, Debug, PartialEq, Eq, Structural)]
pub enum HandCard {
    ActionCard(u8),
    ObjectiveCard(u8),
    Wonder(Wonder),
}

pub open spec fn spec_card_type(c: HandCard) -> HandCardType {
    match c {
        HandCard::ActionCard(_) => HandCardType::Action,
        HandCard::ObjectiveCard(_) => HandCardType::Objective,
        HandCard::Wonder(_) => HandCardType::Wonder,
    }
}

impl HandCard {
    pub fn card_type(&self) -> (r: HandCardType)
        ensures
            r == spec_card_type(*self),
    {
        match self {
            HandCard::ActionCard(_) => HandCardType::Action,
            HandCard::ObjectiveCard(_) => HandCardType::Objective,
            HandCard::Wonder(_) => HandCardType::Wonder,
        }
    }
}

/// Where a card is.
#[derive(Clone, Debug)]
pub enum HandCardLocation {
    DrawPile,
    DrawPilePeeked(usize),
    Hand(usize),
    RevealedHand(usize),
    DiscardPile,
    Incident,
    PlayToDiscard,
    PlayToDiscardFaceDown,
    PlayToKeep,
    CompleteObjective(String),
    Public,
    GreatSeer(usize),
}

impl HandCardLocation {
    /// The player holding the card in hand.
    pub fn player(&self) -> (r: Option<usize>)
        ensures
            r == match *self {
                HandCardLocation::Hand(p) => Some(p),
                _ => None::<usize>,
            },
    {
        match self {
            HandCardLocation::Hand(p) => Some(*p),
            _ => None,
        }
    }

    pub open spec fn spec_is_public(&self) -> bool {
        !(*self is DrawPile || *self is DrawPilePeeked || *self is Hand || *self is PlayToDiscardFaceDown
            || *self is GreatSeer)
    }

    /// Everyone sees a card here.
    pub fn is_public(&self) -> (r: bool)
        ensures
            r == self.spec_is_public(),
    {
        !matches!(
            self,
            HandCardLocation::DrawPile | HandCardLocation::DrawPilePeeked(_) | HandCardLocation::Hand(_)
                | HandCardLocation::PlayToDiscardFaceDown | HandCardLocation::GreatSeer(_)
        )
    }
}

/// The cards of one kind of a hand.
pub open spec fn cards_of_type(
    t: HandCardType,
    action_cards: Seq<u8>,
    objective_cards: Seq<u8>,
    wonder_cards: Seq<Wonder>,
) -> Seq<HandCard> {
    match t {
        HandCardType::Action => action_cards.map_values(|id: u8| HandCard::ActionCard(id)),
        HandCardType::Objective => objective_cards.map_values(|id: u8| HandCard::ObjectiveCard(id)),
        HandCardType::Wonder => wonder_cards.map_values(|w: Wonder| HandCard::Wonder(w)),
    }
}

/// The cards of the given kinds, kind after kind.
pub open spec fn spec_hand_cards(
    types: Seq<HandCardType>,
    action_cards: Seq<u8>,
    objective_cards: Seq<u8>,
    wonder_cards: Seq<Wonder>,
) -> Seq<HandCard>
    decreases types.len(),
{
    if types.len() == 0 {
        seq![]
    } else {
        spec_hand_cards(types.drop_last(), action_cards, objective_cards, wonder_cards)
            + cards_of_type(types.last(), action_cards, objective_cards, wonder_cards)
    }
}

/// All action cards of a hand.
pub fn all_action_hand_cards(action_cards: &Vec<u8>) -> (r: Vec<HandCard>)
    ensures
        r@ == action_cards@.map_values(|id: u8| HandCard::ActionCard(id)),
{
    let mut r: Vec<HandCard> = Vec::new();
    let mut i: usize = 0;
    while i < action_cards.len()
        invariant
            0 <= i <= action_cards@.len(),
            r@ == action_cards@.take(i as int).map_values(|id: u8| HandCard::ActionCard(id)),
        decreases action_cards@.len() - i,
    {
        r.push(HandCard::ActionCard(action_cards[i]));
        proof {
            assert(action_cards@.take(i as int + 1) =~= action_cards@.take(i as int).push(action_cards@[i as int]));
            assert(r@ =~= action_cards@.take(i as int + 1).map_values(|id: u8| HandCard::ActionCard(id)));
        }
        i = i + 1;
    }
    proof {
        assert(action_cards@.take(action_cards@.len() as int) =~= action_cards@);
    }
    r
}

/// All objective cards of a hand.
pub fn all_objective_hand_cards(objective_cards: &Vec<u8>) -> (r: Vec<HandCard>)
    ensures
        r@ == objective_cards@.map_values(|id: u8| HandCard::ObjectiveCard(id)),
{
    let mut r: Vec<HandCard> = Vec::new();
    let mut i: usize = 0;
    while i < objective_cards.len()
        invariant
            0 <= i <= objective_cards@.len(),
            r@ == objective_cards@.take(i as int).map_values(|id: u8| HandCard::ObjectiveCard(id)),
        decreases objective_cards@.len() - i,
    {
        r.push(HandCard::ObjectiveCard(objective_cards[i]));
        proof {
            assert(objective_cards@.take(i as int + 1) =~= objective_cards@.take(i as int).push(objective_cards@[i as int]));
            assert(r@ =~= objective_cards@.take(i as int + 1).map_values(|id: u8| HandCard::ObjectiveCard(id)));
        }
        i = i + 1;
    }
    proof {
        assert(objective_cards@.take(objective_cards@.len() as int) =~= objective_cards@);
    }
    r
}

/// All wonder cards of a hand.
fn all_wonder_hand_cards(wonder_cards: &Vec<Wonder>) -> (r: Vec<HandCard>)
    ensures
        r@ == wonder_cards@.map_values(|w: Wonder| HandCard::Wonder(w)),
{
    let mut r: Vec<HandCard> = Vec::new();
    let mut i: usize = 0;
    while i < wonder_cards.len()
        invariant
            0 <= i <= wonder_cards@.len(),
            r@ == wonder_cards@.take(i as int).map_values(|w: Wonder| HandCard::Wonder(w)),
        decreases wonder_cards@.len() - i,
    {
        r.push(HandCard::Wonder(wonder_cards[i]));
        proof {
            assert(wonder_cards@.take(i as int + 1) =~= wonder_cards@.take(i as int).push(wonder_cards@[i as int]));
            assert(r@ =~= wonder_cards@.take(i as int + 1).map_values(|w: Wonder| HandCard::Wonder(w)));
        }
        i = i + 1;
    }
    proof {
        assert(wonder_cards@.take(wonder_cards@.len() as int) =~= wonder_cards@);
    }
    r
}

/// The cards of a hand of the given kinds, in the order of `types`.
pub fn hand_cards(
    action_cards: &Vec<u8>,
    objective_cards: &Vec<u8>,
    wonder_cards: &Vec<Wonder>,
    types: &[HandCardType],
) -> (r: Vec<HandCard>)
    ensures
        r@ == spec_hand_cards(types@, action_cards@, objective_cards@, wonder_cards@),
{
    let mut r: Vec<HandCard> = Vec::new();
    let mut i: usize = 0;
    while i < types.len()
        invariant
            0 <= i <= types@.len(),
            r@ == spec_hand_cards(types@.take(i as int), action_cards@, objective_cards@, wonder_cards@),
        decreases types@.len() - i,
    {
        let mut part = match types[i] {
            HandCardType::Action => all_action_hand_cards(action_cards),
            HandCardType::Objective => all_objective_hand_cards(objective_cards),
            HandCardType::Wonder => all_wonder_hand_cards(wonder_cards),
        };
        let ghost before = r@;
        r.append(&mut part);
        proof {
            assert(types@.take(i as int + 1).drop_last() =~= types@.take(i as int));
            assert(r@ =~= spec_hand_cards(types@.take(i as int + 1), action_cards@, objective_cards@, wonder_cards@));
        }
        i = i + 1;
    }
    proof {
        assert(types@.take(types@.len() as int) =~= types@);
    }
    r
}


/// Puts a card on the discard pile: on top (first) for a player with the Great Mausoleum,
/// at the bottom otherwise.
pub fn discard_card(discard: &mut Vec<u8>, card: u8, great_mausoleum: bool)
    ensures
        final(discard)@ == if great_mausoleum {
            seq![card] + old(discard)@
        } else {
            old(discard)@.push(card)
        },
{
    if great_mausoleum {
        discard.insert(0, card);
        proof {
            assert(discard@ =~= seq![card] + old(discard)@);
        }
    } else {
        discard.push(card);
    }
}

/// Some player holds `card`.
pub open spec fn owned_by_any(owned: Seq<Vec<u8>>, card: u8) -> bool {
    exists|p: int| 0 <= p < owned.len() && (#[trigger] owned[p])@.contains(card)
}

/// The cards that go into an empty pile: those of `all` that no player holds, in order.
pub open spec fn spec_reshuffle(all: Seq<u8>, owned: Seq<Vec<u8>>) -> Seq<u8> {
    all.filter(|c: u8| !owned_by_any(owned, c))
}

/// Whether some player holds `card`.
fn is_owned(owned: &[Vec<u8>], card: u8) -> (r: bool)
    ensures
        r == owned_by_any(owned@, card),
{
    let mut p: usize = 0;
    while p < owned.len()
        invariant
            0 <= p <= owned@.len(),
            forall|k: int| 0 <= k < p ==> !(#[trigger] owned@[k])@.contains(card),
        decreases owned@.len() - p,
    {
        let cards = &owned[p];
        let mut i: usize = 0;
        while i < cards.len()
            invariant
                0 <= i <= cards@.len(),
                p < owned@.len(),
                *cards == owned@[p as int],
                forall|k: int| 0 <= k < i ==> cards@[k] != card,
            decreases cards@.len() - i,
        {
            if cards[i] == card {
                proof {
                    assert(owned@[p as int]@.contains(card));
                }
                return true;
            }
            i = i + 1;
        }
        p = p + 1;
    }
    false
}

/// The cards that go into an empty pile: those of `all` that no player holds, in order.
pub fn reshuffle_pile(all: &[u8], owned: &[Vec<u8>]) -> (r: Vec<u8>)
    ensures
        r@ == spec_reshuffle(all@, owned@),
{
    let ghost f = |c: u8| !owned_by_any(owned@, c);
    let mut r: Vec<u8> = Vec::new();
    let mut i: usize = 0;
    while i < all.len()
        invariant
            0 <= i <= all@.len(),
            f == (|c: u8| !owned_by_any(owned@, c)),
            r@ == all@.take(i as int).filter(f),
        decreases all@.len() - i,
    {
        proof {
            assert(all@.take(i as int + 1).drop_last() =~= all@.take(i as int));
            reveal(Seq::filter);
        }
        let c = all[i];
        if !is_owned(owned, c) {
            r.push(c);
        }
        proof {
            if f(c) {
                assert(all@.take(i as int + 1).filter(f) =~= all@.take(i as int).filter(f).push(c));
            } else {
                assert(all@.take(i as int + 1).filter(f) =~= all@.take(i as int).filter(f));
            }
        }
        i = i + 1;
    }
    proof {
        assert(all@.take(i as int) =~= all@);
    }
    r
}

/// `order` lists every index below `n` once.
pub open spec fn is_permutation(order: Seq<usize>, n: int) -> bool {
    &&& order.len() == n
    &&& forall|i: int| 0 <= i < order.len() ==> #[trigger] order[i] < n
    &&& forall|i: int, j: int| 0 <= i < j < order.len() ==> order[i] != order[j]
}

/// What happened when a card was drawn.
#[derive(Clone, Copy, Debug, PartialEq, Eq, Structural)]
pub struct DrawnCard {
    /// The card drawn, if any was left.
    pub card: Option<u8>,
    /// The empty pile was refilled from the cards no player holds.
    pub reshuffled: bool,
}

/// The pile after refilling an empty pile with the shuffled `cards`.
pub open spec fn refilled(pile: Seq<u8>, cards: Seq<u8>, shuffled: Seq<usize>) -> Seq<u8> {
    if pile.len() == 0 && cards.len() > 0 {
        shuffled.map_values(|i: usize| cards[i as int])
    } else {
        pile
    }
}

/// Draws the top card of a pile. An empty pile is first refilled with the cards of `all`
/// that no player holds, in the random order `shuffled` (a permutation of their indices).
pub fn draw_card_from_pile(pile: &mut Vec<u8>, all: &[u8], owned: &[Vec<u8>], shuffled: &[usize]) -> (r: DrawnCard)
    requires
        old(pile)@.len() == 0 ==> is_permutation(shuffled@, spec_reshuffle(all@, owned@).len() as int),
    ensures
        r.reshuffled == (old(pile)@.len() == 0 && spec_reshuffle(all@, owned@).len() > 0),
        ({
            let p = refilled(old(pile)@, spec_reshuffle(all@, owned@), shuffled@);
            if p.len() == 0 {
                r.card is None && final(pile)@ == p
            } else {
                r.card == Some(p[0]) && final(pile)@ == p.drop_first()
            }
        }),
{
    let mut reshuffled = false;
    if pile.len() == 0 {
        let cards = reshuffle_pile(all, owned);
        if cards.len() > 0 {
            let mut i: usize = 0;
            while i < shuffled.len()
                invariant
                    0 <= i <= shuffled@.len(),
                    is_permutation(shuffled@, cards@.len() as int),
                    pile@ == shuffled@.take(i as int).map_values(|k: usize| cards@[k as int]),
                decreases shuffled@.len() - i,
            {
                pile.push(cards[shuffled[i]]);
                proof {
                    assert(shuffled@.take(i as int + 1).map_values(|k: usize| cards@[k as int]) =~= shuffled@.take(
                        i as int,
                    ).map_values(|k: usize| cards@[k as int]).push(cards@[shuffled@[i as int] as int]));
                }
                i = i + 1;
            }
            proof {
                assert(shuffled@.take(i as int) =~= shuffled@);
            }
            reshuffled = true;
        }
    }
    if pile.len() == 0 {
        return DrawnCard { card: None, reshuffled };
    }
    let c = pile.remove(0);
    DrawnCard { card: Some(c), reshuffled }
}


/// How a card is named at a location: by its name where everyone sees it, by its kind
/// otherwise.
pub open spec fn spec_card_name(card: HandCard, l: HandCardLocation, public_name: Seq<char>) -> Seq<char> {
    if l.spec_is_public() {
        public_name
    } else {
        match spec_card_type(card) {
            HandCardType::Action => "an action card"@,
            HandCardType::Objective => "an objective card"@,
            HandCardType::Wonder => "a wonder card"@,
        }
    }
}

/// How a card is named at location `l` (`public_name` is its name).
pub fn card_name(card: &HandCard, l: &HandCardLocation, public_name: &str) -> (r: String)
    ensures
        r@ == spec_card_name(*card, *l, public_name@),
{
    if l.is_public() {
        public_name.to_owned()
    } else {
        card.card_type().to_string()
    }
}

/// A card transfer that the log can describe: into a hand from a pile, a hand, the public
/// area, the Great Seer or an event; out of a hand to a pile, into play, to an objective or
/// to the public area; from the draw pile to the Great Seer; or a peeked card back to the
/// draw pile.
pub open spec fn loggable_transfer(from: HandCardLocation, to: HandCardLocation) -> bool {
    if to is Hand {
        from is DrawPile || from is Hand || from is RevealedHand || from is DiscardPile || from is Public
            || from is GreatSeer || from is Incident
    } else if from is Hand {
        to is DiscardPile || to is DrawPile || to is PlayToDiscard || to is PlayToKeep || to is CompleteObjective
            || to is PlayToDiscardFaceDown || to is Public
    } else if to is GreatSeer {
        from is DrawPile
    } else {
        from is DrawPilePeeked && to is DrawPile
    }
}

/// The player whose log records the transfer.
pub open spec fn transfer_player(from: HandCardLocation, to: HandCardLocation) -> usize {
    match to {
        HandCardLocation::Hand(p) => p,
        HandCardLocation::GreatSeer(p) => match from {
            HandCardLocation::Hand(q) => q,
            _ => p,
        },
        _ => match from {
            HandCardLocation::Hand(q) => q,
            HandCardLocation::DrawPilePeeked(q) => q,
            _ => 0,
        },
    }
}

/// The log message of a transfer (`name` is the card's name as seen at the other location,
/// `names` the player names).
pub open spec fn transfer_message(
    from: HandCardLocation,
    to: HandCardLocation,
    name: Seq<char>,
    names: Seq<String>,
) -> Seq<char> {
    if to is Hand {
        match from {
            HandCardLocation::DrawPile => "Draw "@ + name,
            HandCardLocation::Hand(p) => "Gain "@ + name + " from "@ + names[p as int]@,
            HandCardLocation::RevealedHand(p) => "Gain "@ + name + " from "@ + names[p as int]@,
            HandCardLocation::DiscardPile => "Gain "@ + name + " from discard pile"@,
            HandCardLocation::Public => "Gain "@ + name + " from the public area"@,
            HandCardLocation::GreatSeer(_) => "Gain "@ + name + " from Great Seer"@,
            _ => "Gain "@ + name + " from the current event"@,
        }
    } else if from is Hand {
        match to {
            HandCardLocation::DiscardPile => "Discard "@ + name,
            HandCardLocation::DrawPile => "Shuffle "@ + name + " back into the draw pile"@,
            HandCardLocation::CompleteObjective(o) => "Complete "@ + o@ + " using "@ + name,
            HandCardLocation::PlayToDiscardFaceDown => "Play "@ + name + " face down"@,
            HandCardLocation::Public => "Place "@ + name + " in public area"@,
            _ => "Play "@ + name,
        }
    } else if to is GreatSeer {
        "Placed a card from the draw pile in the Great Seer"@
    } else {
        "Reshuffled a card from the draw pile back into the draw pile"@
    }
}

/// The log entry of a card moving from `from` to `to`: the player whose log gets it and
/// the message (`public_name` is the card's name, `names` the player names).
pub fn log_card_transfer(
    card: &HandCard,
    public_name: &str,
    from: &HandCardLocation,
    to: &HandCardLocation,
    names: &[String],
) -> (r: (usize, String))
    requires
        loggable_transfer(*from, *to),
        from matches HandCardLocation::Hand(p) ==> p < names@.len(),
        from matches HandCardLocation::RevealedHand(p) ==> p < names@.len(),
    ensures
        r.0 == transfer_player(*from, *to),
        r.1@ == transfer_message(
            *from,
            *to,
            if to is Hand {
                spec_card_name(*card, *from, public_name@)
            } else {
                spec_card_name(*card, *to, public_name@)
            },
            names@,
        ),
{
    let mut m = String::new();
    match to {
        HandCardLocation::Hand(p) => {
            let name = card_name(card, from, public_name);
            match from {
                HandCardLocation::DrawPile => {
                    m.append("Draw ");
                    m.append(name.as_str());
                },
                HandCardLocation::Hand(f) | HandCardLocation::RevealedHand(f) => {
                    m.append("Gain ");
                    m.append(name.as_str());
                    m.append(" from ");
                    m.append(names[*f].as_str());
                },
                HandCardLocation::DiscardPile => {
                    m.append("Gain ");
                    m.append(name.as_str());
                    m.append(" from discard pile");
                },
                HandCardLocation::Public => {
                    m.append("Gain ");
                    m.append(name.as_str());
                    m.append(" from the public area");
                },
                HandCardLocation::GreatSeer(_) => {
                    m.append("Gain ");
                    m.append(name.as_str());
                    m.append(" from Great Seer");
                },
                _ => {
                    m.append("Gain ");
                    m.append(name.as_str());
                    m.append(" from the current event");
                },
            }
            proof {
                assert(Seq::<char>::empty() + "Draw "@ =~= "Draw "@);
                assert(Seq::<char>::empty() + "Gain "@ =~= "Gain "@);
            }
            return (*p, m);
        },
        _ => {},
    }
    match from {
        HandCardLocation::Hand(p) => {
            let name = card_name(card, to, public_name);
            match to {
                HandCardLocation::DiscardPile => {
                    m.append("Discard ");
                    m.append(name.as_str());
                },
                HandCardLocation::DrawPile => {
                    m.append("Shuffle ");
                    m.append(name.as_str());
                    m.append(" back into the draw pile");
                },
                HandCardLocation::CompleteObjective(o) => {
                    m.append("Complete ");
                    m.append(o.as_str());
                    m.append(" using ");
                    m.append(name.as_str());
                },
                HandCardLocation::PlayToDiscardFaceDown => {
                    m.append("Play ");
                    m.append(name.as_str());
                    m.append(" face down");
                },
                HandCardLocation::Public => {
                    m.append("Place ");
                    m.append(name.as_str());
                    m.append(" in public area");
                },
                _ => {
                    m.append("Play ");
                    m.append(name.as_str());
                },
            }
            proof {
                assert(Seq::<char>::empty() + "Discard "@ =~= "Discard "@);
                assert(Seq::<char>::empty() + "Shuffle "@ =~= "Shuffle "@);
                assert(Seq::<char>::empty() + "Complete "@ =~= "Complete "@);
                assert(Seq::<char>::empty() + "Play "@ =~= "Play "@);
                assert(Seq::<char>::empty() + "Place "@ =~= "Place "@);
            }
            return (*p, m);
        },
        _ => {},
    }
    match to {
        HandCardLocation::GreatSeer(p) => {
            m.append("Placed a card from the draw pile in the Great Seer");
            proof {
                assert(Seq::<char>::empty() + "Placed a card from the draw pile in the Great Seer"@
                    =~= "Placed a card from the draw pile in the Great Seer"@);
            }
            return (*p, m);
        },
        _ => {},
    }
    m.append("Reshuffled a card from the draw pile back into the draw pile");
    proof {
        assert(Seq::<char>::empty() + "Reshuffled a card from the draw pile back into the draw pile"@
            =~= "Reshuffled a card from the draw pile back into the draw pile"@);
    }
    let p = match from {
        HandCardLocation::DrawPilePeeked(p) => *p,
        _ => 0,
    };
    (p, m)
}

} // verus!
