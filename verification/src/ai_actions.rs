use vstd::prelude::*;

use crate::city::{city_size, City, MoodState};
use crate::position::Position;
use crate::custom_actions::CustomActionType;
use crate::ai_collect::{
    combinations_from, generate_all_combinations, is_combination, lemma_combinations_members, views,
};
use crate::advance::Advance;
use crate::resource_pile::ResourcePile;
use crate::unit::UnitType;

verus! {

/// The mood steps that make a city happy: two for an angry city, one for a neutral one.
pub open spec fn happiness_steps(c: City) -> int {
    match c.mood_state {
        MoodState::Angry => 2,
        MoodState::Neutral => 1,
        MoodState::Happy => 0,
    }
}

/// The mood steps of making city `i` happy, counted per size.
pub open spec fn city_steps(cities: Seq<City>, i: usize) -> int {
    happiness_steps(cities[i as int]) * city_size(&cities[i as int])
}

/// City `a` comes before city `b`: it is bigger, or as big and listed earlier.
pub open spec fn bigger_first(cities: Seq<City>, a: usize, b: usize) -> bool {
    ||| city_size(&cities[a as int]) > city_size(&cities[b as int])
    ||| city_size(&cities[a as int]) == city_size(&cities[b as int]) && a < b
}

/// `order` lists every city that is not happy once, biggest first, cities of equal size in
/// the order of `cities`.
pub open spec fn by_size(order: Seq<usize>, cities: Seq<City>) -> bool {
    &&& forall|i: int| 0 <= i < order.len() ==> #[trigger] order[i] < cities.len()
    &&& forall|i: int| 0 <= i < order.len() ==> cities[#[trigger] order[i] as int].mood_state != MoodState::Happy
    &&& forall|k: int| 0 <= k < cities.len() && cities[k].mood_state != MoodState::Happy ==> order.contains(k as usize)
    &&& forall|i: int, j: int| 0 <= i < j < order.len() ==> order[i] != order[j]
    &&& forall|i: int, j: int| 0 <= i < j < order.len() ==> bigger_first(cities, order[i], order[j])
}

/// The cities made happy, taken in `order` while the total steps so far (starting from `sum`)
/// stay affordable (`affordable[s]` tells whether `s` steps can be paid).
pub open spec fn happy_prefix(order: Seq<usize>, cities: Seq<City>, affordable: Seq<bool>, sum: int) -> Seq<usize>
    decreases order.len(),
{
    if order.len() == 0 {
        Seq::empty()
    } else {
        let next = sum + city_steps(cities, order[0]);
        if next < affordable.len() && affordable[next] {
            seq![order[0]] + happy_prefix(order.drop_first(), cities, affordable, next)
        } else {
            Seq::empty()
        }
    }
}

/// The steps of the cities taken.
pub open spec fn steps_total(taken: Seq<usize>, cities: Seq<City>) -> int
    decreases taken.len(),
{
    if taken.len() == 0 {
        0
    } else {
        city_steps(cities, taken[0]) + steps_total(taken.drop_first(), cities)
    }
}

/// The position and the steps of each city taken.
pub open spec fn happy_steps(taken: Seq<usize>, cities: Seq<City>) -> Seq<(Position, u8)> {
    taken.map_values(|i: usize| (cities[i as int].position, happiness_steps(cities[i as int]) as u8))
}

/// All cities can count their size.
pub open spec fn all_countable(cities: Seq<City>) -> bool {
    forall|i: int| 0 <= i < cities.len() ==> (#[trigger] cities[i]).countable()
}

/// Puts city `k` into the order, after the cities at least as big.
#[verifier::spinoff_prover]
fn insert_by_size(order: &mut Vec<usize>, cities: &Vec<City>, k: usize)
    requires
        k < cities@.len(),
        all_countable(cities@),
        cities@[k as int].mood_state != MoodState::Happy,
        forall|i: int| 0 <= i < old(order)@.len() ==> #[trigger] old(order)@[i] < k,
        forall|i: int| 0 <= i < old(order)@.len() ==> cities@[#[trigger] old(order)@[i] as int].mood_state
            != MoodState::Happy,
        forall|i: int, j: int| 0 <= i < j < old(order)@.len() ==> old(order)@[i] != old(order)@[j],
        forall|i: int, j: int| 0 <= i < j < old(order)@.len() ==> bigger_first(cities@, old(order)@[i], old(order)@[j]),
    ensures
        forall|x: usize| #[trigger] final(order)@.contains(x) <==> (old(order)@.contains(x) || x == k),
        forall|i: int| 0 <= i < final(order)@.len() ==> #[trigger] final(order)@[i] < k + 1,
        forall|i: int| 0 <= i < final(order)@.len() ==> cities@[#[trigger] final(order)@[i] as int].mood_state
            != MoodState::Happy,
        forall|i: int, j: int| 0 <= i < j < final(order)@.len() ==> final(order)@[i] != final(order)@[j],
        forall|i: int, j: int| 0 <= i < j < final(order)@.len() ==> bigger_first(cities@, final(order)@[i], final(order)@[j]),
{
    let size = cities[k].size();
    let mut j: usize = 0;
    while j < order.len() && cities[order[j]].size() >= size
        invariant
            0 <= j <= order@.len(),
            k < cities@.len(),
            all_countable(cities@),
            size == city_size(&cities@[k as int]),
            forall|i: int| 0 <= i < order@.len() ==> #[trigger] order@[i] < k,
            forall|i: int| 0 <= i < j ==> city_size(&cities@[#[trigger] order@[i] as int]) >= size,
        decreases order@.len() - j,
    {
        j = j + 1;
    }
    let ghost before = order@;
    proof {
        if j < before.len() {
            assert forall|i: int| j <= i < before.len() implies city_size(&cities@[#[trigger] before[i] as int])
                < size by {
                if i > j {
                    assert(bigger_first(cities@, before[j as int], before[i]));
                }
            }
        }
    }
    order.insert(j, k);
    proof {
        assert(order@ == before.insert(j as int, k));
        assert forall|a: int, b: int| 0 <= a < b < order@.len() implies bigger_first(cities@, order@[a], order@[b])
            && order@[a] != order@[b] by {
            if b < j {
                assert(order@[a] == before[a] && order@[b] == before[b]);
            } else if b == j {
                assert(order@[a] == before[a]);
            } else if a < j {
                assert(order@[a] == before[a] && order@[b] == before[b - 1]);
            } else if a == j {
                assert(order@[b] == before[b - 1]);
            } else {
                assert(order@[a] == before[a - 1] && order@[b] == before[b - 1]);
            }
        }
        assert forall|i: int| 0 <= i < order@.len() implies #[trigger] order@[i] < k + 1 && cities@[order@[i] as int].mood_state
            != MoodState::Happy by {
            if i < j {
                assert(order@[i] == before[i]);
            } else if i > j {
                assert(order@[i] == before[i - 1]);
            }
        }
        assert forall|x: usize| #[trigger] order@.contains(x) <==> (before.contains(x) || x == k) by {
            if order@.contains(x) {
                let t = choose|t: int| 0 <= t < order@.len() && order@[t] == x;
                if t < j {
                    assert(before[t] == x);
                } else if t > j {
                    assert(before[t - 1] == x);
                }
            }
            if before.contains(x) {
                let t = choose|t: int| 0 <= t < before.len() && before[t] == x;
                if t < j {
                    assert(order@[t] == x);
                } else {
                    assert(order@[t + 1] == x);
                }
            }
            if x == k {
                assert(order@[j as int] == k);
            }
        }
    }
}

/// The cities that are not happy, biggest first.
fn sort_by_size(cities: &Vec<City>) -> (order: Vec<usize>)
    requires
        all_countable(cities@),
    ensures
        by_size(order@, cities@),
{
    let mut order: Vec<usize> = Vec::new();
    let mut k: usize = 0;
    while k < cities.len()
        invariant
            0 <= k <= cities@.len(),
            all_countable(cities@),
            forall|i: int| 0 <= i < order@.len() ==> #[trigger] order@[i] < k,
            forall|i: int| 0 <= i < order@.len() ==> cities@[#[trigger] order@[i] as int].mood_state != MoodState::Happy,
            forall|m: int| 0 <= m < k && cities@[m].mood_state != MoodState::Happy ==> order@.contains(m as usize),
            forall|i: int, j: int| 0 <= i < j < order@.len() ==> order@[i] != order@[j],
            forall|i: int, j: int| 0 <= i < j < order@.len() ==> bigger_first(cities@, order@[i], order@[j]),
        decreases cities@.len() - k,
    {
        if cities[k].mood_state != MoodState::Happy {
            let ghost before = order@;
            insert_by_size(&mut order, cities, k);
            proof {
                assert forall|m: int| 0 <= m < k + 1 && cities@[m].mood_state != MoodState::Happy implies order@.contains(
                    m as usize,
                ) by {
                    if m < k {
                        assert(before.contains(m as usize));
                    }
                }
            }
        }
        k = k + 1;
    }
    order
}

/// The cities the computer player makes happy: cities that are not happy, biggest first,
/// as long as the steps needed so far can be paid (`affordable[s]` tells whether `s` steps
/// can be paid; it covers every step count below 256). Gives the position and steps of each
/// city and the steps in all, or nothing when no city can be made happy.
pub fn calculate_increase_happiness(cities: &Vec<City>, affordable: &[bool]) -> (r: Option<(Vec<(Position, u8)>, u8)>)
    requires
        all_countable(cities@),
        affordable@.len() == 256,
    ensures
        exists|order: Seq<usize>|
            by_size(order, cities@) && ({
                let taken = happy_prefix(order, cities@, affordable@, 0);
                if taken.len() == 0 {
                    r is None
                } else {
                    r matches Some((steps, total)) && steps@ == happy_steps(taken, cities@) && total
                        == steps_total(taken, cities@)
                }
            }),
{
    let order = sort_by_size(cities);
    let mut steps: Vec<(Position, u8)> = Vec::new();
    let mut sum: u8 = 0;
    let mut i: usize = 0;
    let mut done = false;
    let ghost full = happy_prefix(order@, cities@, affordable@, 0);
    proof {
        assert(order@.skip(0) =~= order@);
    }
    while !done && i < order.len()
        invariant
            0 <= i <= order@.len(),
            by_size(order@, cities@),
            all_countable(cities@),
            affordable@.len() == 256,
            full == happy_prefix(order@, cities@, affordable@, 0),
            !done ==> full == happy_prefix(order@.take(i as int), cities@, affordable@, 0) + happy_prefix(
                order@.skip(i as int),
                cities@,
                affordable@,
                sum as int,
            ),
            done ==> full == happy_prefix(order@.take(i as int), cities@, affordable@, 0),
            happy_prefix(order@.take(i as int), cities@, affordable@, 0) == order@.take(i as int),
            steps@ == happy_steps(order@.take(i as int), cities@),
            sum == steps_total(order@.take(i as int), cities@),
        decreases (order@.len() - i) * 2 + if done { 0int } else { 1int },
    {
        let c = &cities[order[i]];
        let size = c.size();
        let per_step: u64 = match c.mood_state {
            MoodState::Angry => 2,
            MoodState::Neutral => 1,
            MoodState::Happy => 0,
        };
        let ghost rest = order@.skip(i as int);
        proof {
            assert(rest[0] == order@[i as int]);
            assert(rest.drop_first() =~= order@.skip(i as int + 1));
        }
        let next: u64 = if size > 255 {
            256
        } else {
            sum as u64 + per_step * size as u64
        };
        proof {
            let cc = cities@[order@[i as int] as int];
            assert(happiness_steps(cc) == per_step);
            if size <= 255 {
                assert(next == sum + city_steps(cities@, order@[i as int]));
            } else {
                assert(happiness_steps(cc) >= 1);
                assert(happiness_steps(cc) * city_size(&cc) >= city_size(&cc)) by (nonlinear_arith)
                    requires
                        happiness_steps(cc) >= 1,
                        city_size(&cc) >= 0,
                ;
                assert(sum + city_steps(cities@, order@[i as int]) >= 256);
            }
        }
        if next < 256 && affordable[next as usize] {
            proof {
                lemma_prefix_extend(order@, cities@, affordable@, i as int, sum as int);
            }
            steps.push((c.position, per_step as u8));
            sum = next as u8;
            proof {
                assert(order@.take(i as int + 1).drop_last() =~= order@.take(i as int));
                lemma_happy_steps_push(order@.take(i as int), order@[i as int], cities@);
                assert(order@.take(i as int).push(order@[i as int]) =~= order@.take(i as int + 1));
                lemma_steps_total_push(order@.take(i as int), order@[i as int], cities@);
            }
            i = i + 1;
        } else {
            proof {
                assert(happy_prefix(rest, cities@, affordable@, sum as int) =~= Seq::<usize>::empty());
                assert(full =~= happy_prefix(order@.take(i as int), cities@, affordable@, 0));
            }
            done = true;
        }
    }
    proof {
        if !done {
            assert(order@.skip(i as int) =~= Seq::<usize>::empty());
            assert(full =~= happy_prefix(order@.take(i as int), cities@, affordable@, 0));
        }
        assert(full == order@.take(i as int));
    }
    if steps.len() == 0 {
        proof {
            assert(full.len() == 0);
        }
        None
    } else {
        Some((steps, sum))
    }
}

/// Taking one more city keeps the taken cities a prefix of the order.
proof fn lemma_prefix_extend(order: Seq<usize>, cities: Seq<City>, affordable: Seq<bool>, i: int, sum: int)
    requires
        0 <= i < order.len(),
        happy_prefix(order.take(i), cities, affordable, 0) == order.take(i),
        sum == steps_total(order.take(i), cities),
        sum + city_steps(cities, order[i]) < affordable.len(),
        affordable[sum + city_steps(cities, order[i])],
    ensures
        happy_prefix(order.take(i + 1), cities, affordable, 0) == order.take(i + 1),
        happy_prefix(order.take(i), cities, affordable, 0) + happy_prefix(order.skip(i), cities, affordable, sum)
            == happy_prefix(order.take(i + 1), cities, affordable, 0) + happy_prefix(
            order.skip(i + 1),
            cities,
            affordable,
            sum + city_steps(cities, order[i]),
        ),
{
    lemma_prefix_append(order.take(i), seq![order[i]], cities, affordable, 0);
    assert(order.take(i) + seq![order[i]] =~= order.take(i + 1));
    assert(order.skip(i) =~= seq![order[i]] + order.skip(i + 1));
    assert(order.skip(i).drop_first() =~= order.skip(i + 1));
    let one = seq![order[i]];
    assert(one.len() == 1);
    assert(one[0] == order[i]);
    assert(one.drop_first() =~= Seq::<usize>::empty());
    assert(happy_prefix(Seq::<usize>::empty(), cities, affordable, sum + city_steps(cities, order[i])) =~= Seq::<usize>::empty());
    assert(happy_prefix(one, cities, affordable, sum) == one + happy_prefix(one.drop_first(), cities, affordable, sum + city_steps(cities, order[i])));
    assert(one + Seq::<usize>::empty() =~= one);
    assert(order.skip(i)[0] == order[i]);
}

/// Where the taken prefix is a whole sequence `a`, the cities taken from `a + b` continue
/// with those taken from `b` after the steps of `a`.
proof fn lemma_prefix_append(a: Seq<usize>, b: Seq<usize>, cities: Seq<City>, affordable: Seq<bool>, sum: int)
    requires
        happy_prefix(a, cities, affordable, sum) == a,
    ensures
        happy_prefix(a + b, cities, affordable, sum) == a + happy_prefix(
            b,
            cities,
            affordable,
            sum + steps_total(a, cities),
        ),
    decreases a.len(),
{
    if a.len() == 0 {
        assert(a + b =~= b);
        assert(a + happy_prefix(b, cities, affordable, sum) =~= happy_prefix(b, cities, affordable, sum));
    } else {
        let next = sum + city_steps(cities, a[0]);
        assert((a + b)[0] == a[0]);
        assert((a + b).drop_first() =~= a.drop_first() + b);
        if !(next < affordable.len() && affordable[next]) {
            assert(happy_prefix(a, cities, affordable, sum).len() == 0);
        }
        assert(happy_prefix(a.drop_first(), cities, affordable, next) =~= a.drop_first()) by {
            assert(happy_prefix(a, cities, affordable, sum) == seq![a[0]] + happy_prefix(
                a.drop_first(),
                cities,
                affordable,
                next,
            ));
            assert(a =~= seq![a[0]] + a.drop_first());
        }
        lemma_prefix_append(a.drop_first(), b, cities, affordable, next);
        assert(a =~= seq![a[0]] + a.drop_first());
    }
}

proof fn lemma_happy_steps_push(taken: Seq<usize>, x: usize, cities: Seq<City>)
    ensures
        happy_steps(taken.push(x), cities) == happy_steps(taken, cities).push(
            (cities[x as int].position, happiness_steps(cities[x as int]) as u8),
        ),
{
    assert(happy_steps(taken.push(x), cities) =~= happy_steps(taken, cities).push(
        (cities[x as int].position, happiness_steps(cities[x as int]) as u8),
    ));
}

proof fn lemma_steps_total_push(taken: Seq<usize>, x: usize, cities: Seq<City>)
    ensures
        steps_total(taken.push(x), cities) == steps_total(taken, cities) + city_steps(cities, x),
    decreases taken.len(),
{
    let p = taken.push(x);
    if taken.len() > 0 {
        assert(p[0] == taken[0]);
        assert(p.drop_first() =~= taken.drop_first().push(x));
        lemma_steps_total_push(taken.drop_first(), x, cities);
        assert(steps_total(p, cities) == city_steps(cities, taken[0]) + steps_total(p.drop_first(), cities));
        assert(steps_total(taken, cities) == city_steps(cities, taken[0]) + steps_total(taken.drop_first(), cities));
    } else {
        assert(p[0] == x);
        assert(p.drop_first() =~= Seq::<usize>::empty());
        assert(steps_total(p.drop_first(), cities) == 0);
        assert(steps_total(p, cities) == city_steps(cities, x) + steps_total(p.drop_first(), cities));
    }
}


/// Two orders by size agree up to index `i`.
proof fn lemma_size_orders_agree(o1: Seq<usize>, o2: Seq<usize>, cities: Seq<City>, i: int)
    requires
        by_size(o1, cities),
        by_size(o2, cities),
        0 <= i < o1.len(),
    ensures
        i < o2.len(),
        forall|k: int| 0 <= k <= i ==> o1[k] == o2[k],
    decreases i,
{
    if i > 0 {
        lemma_size_orders_agree(o1, o2, cities, i - 1);
    }
    let x = o1[i];
    assert(cities[x as int].mood_state != MoodState::Happy);
    assert(o2.contains(x));
    let j = choose|j: int| 0 <= j < o2.len() && o2[j] == x;
    if j < i {
        assert(o1[j] == o2[j]);
    }
    assert(j >= i);
    let y = o2[i];
    if x != y {
        assert(cities[y as int].mood_state != MoodState::Happy);
        assert(o1.contains(y));
        let m = choose|m: int| 0 <= m < o1.len() && o1[m] == y;
        if m < i {
            assert(o1[m] == o2[m]);
        }
        assert(m > i && j > i);
        assert(bigger_first(cities, x, y));
        assert(bigger_first(cities, y, x));
    }
}

/// Only one order lists the cities by size, so the cities made happy are determined by the
/// cities and what can be paid.
pub proof fn lemma_by_size_unique(o1: Seq<usize>, o2: Seq<usize>, cities: Seq<City>)
    requires
        by_size(o1, cities),
        by_size(o2, cities),
    ensures
        o1 == o2,
{
    if o1.len() > 0 {
        lemma_size_orders_agree(o1, o2, cities, o1.len() - 1);
    }
    if o2.len() > 0 {
        lemma_size_orders_agree(o2, o1, cities, o2.len() - 1);
    }
    assert(o1 =~= o2);
}

/// The groups of actions that the computer player weighs.
#[derive(Clone, Copy, Debug, PartialEq, Eq, Structural)]
pub enum AiActionType {
    Advance,
    FoundCity,
    Construct,
    Recruit,
    Collect,
    IncreaseHappiness,
    ActionCard,
    WonderCard,
    Custom(CustomActionType),
}

/// The groups of actions seen as sequences.
pub open spec fn groups_view<A>(g: Seq<(AiActionType, Vec<A>)>) -> Seq<(AiActionType, Seq<A>)> {
    g.map_values(|x: (AiActionType, Vec<A>)| (x.0, x.1@))
}

/// The groups given by the action factories that are available and give some action.
pub open spec fn factory_groups<A>(gs: Seq<(AiActionType, bool, Vec<A>)>) -> Seq<(AiActionType, Seq<A>)> {
    gs.filter(|g: (AiActionType, bool, Vec<A>)| g.1 && g.2@.len() > 0).map_values(
        |g: (AiActionType, bool, Vec<A>)| (g.0, g.2@),
    )
}

/// A group of kind `t` with actions `v`, where there is any.
pub open spec fn group_if_any<A>(t: AiActionType, v: Seq<A>) -> Seq<(AiActionType, Seq<A>)> {
    if v.len() > 0 {
        seq![(t, v)]
    } else {
        seq![]
    }
}

/// A group holding `a`, where there is one.
pub open spec fn group_of_one<A>(t: AiActionType, a: Option<A>) -> Seq<(AiActionType, Seq<A>)> {
    match a {
        Some(x) => seq![(t, seq![x])],
        None => seq![],
    }
}

/// The actions of the wonder cards that can be played.
pub open spec fn playable_wonders<A>(w: Seq<(A, bool)>) -> Seq<A> {
    w.filter(|x: (A, bool)| x.1).map_values(|x: (A, bool)| x.0)
}

/// The actions the computer player weighs at the start of its decision, group by group, in
/// this order: the factories for advancing, founding cities, constructing and recruiting
/// (where the action is available and gives some action), collecting, increasing happiness,
/// an influence attempt (grouped with collecting), the action cards, the wonder cards that
/// can be played, and each custom action (one group each).
pub open spec fn spec_base_actions<A>(
    factories: Seq<(AiActionType, bool, Vec<A>)>,
    collect: Seq<A>,
    happiness: Option<A>,
    influence: Option<A>,
    action_cards: Seq<A>,
    wonder_cards: Seq<(A, bool)>,
    custom: Seq<(CustomActionType, A)>,
) -> Seq<(AiActionType, Seq<A>)> {
    factory_groups(factories) + group_if_any(AiActionType::Collect, collect) + group_of_one(
        AiActionType::IncreaseHappiness,
        happiness,
    ) + group_of_one(AiActionType::Collect, influence) + group_if_any(
        AiActionType::ActionCard,
        action_cards,
    ) + group_if_any(AiActionType::WonderCard, playable_wonders(wonder_cards)) + custom.map_values(
        |c: (CustomActionType, A)| (AiActionType::Custom(c.0), seq![c.1]),
    )
}

fn push_group<A>(r: &mut Vec<(AiActionType, Vec<A>)>, t: AiActionType, v: Vec<A>)
    ensures
        groups_view(final(r)@) == groups_view(old(r)@).push((t, v@)),
{
    r.push((t, v));
    proof {
        assert(groups_view(r@) =~= groups_view(old(r)@).push((t, v@)));
    }
}

/// Collects the groups of actions the computer player weighs (see `spec_base_actions`);
/// `factories` gives, for each action factory in order, its kind, whether the action is
/// available and the actions it proposes.
pub fn base_actions<A>(
    factories: Vec<(AiActionType, bool, Vec<A>)>,
    collect: Vec<A>,
    happiness: Option<A>,
    influence: Option<A>,
    action_cards: Vec<A>,
    wonder_cards: Vec<(A, bool)>,
    custom: Vec<(CustomActionType, A)>,
) -> (r: Vec<(AiActionType, Vec<A>)>)
    ensures
        groups_view(r@) == spec_base_actions(
            factories@,
            collect@,
            happiness,
            influence,
            action_cards@,
            wonder_cards@,
            custom@,
        ),
{
    let ghost fs = factories@;
    let ghost ff = |g: (AiActionType, bool, Vec<A>)| g.1 && g.2@.len() > 0;
    let mut r: Vec<(AiActionType, Vec<A>)> = Vec::new();
    let mut factories = factories;
    let n0 = factories.len();
    assert(fs.len() == n0);
    let mut k: usize = 0;
    proof {
        assert(fs.take(0).filter(ff) =~= Seq::<(AiActionType, bool, Vec<A>)>::empty());
        assert(groups_view(r@) =~= fs.take(0).filter(ff).map_values(
            |g: (AiActionType, bool, Vec<A>)| (g.0, g.2@),
        ));
    }
    while factories.len() > 0
        invariant
            k + factories@.len() == fs.len(),
            fs.len() <= usize::MAX,
            factories@ == fs.skip(k as int),
            ff == (|g: (AiActionType, bool, Vec<A>)| g.1 && g.2@.len() > 0),
            groups_view(r@) == fs.take(k as int).filter(ff).map_values(
                |g: (AiActionType, bool, Vec<A>)| (g.0, g.2@),
            ),
        decreases factories@.len(),
    {
        let g = factories.remove(0);
        proof {
            assert(g == fs[k as int]);
            assert(fs.take(k as int + 1).drop_last() =~= fs.take(k as int));
            assert(fs.take(k as int + 1) =~= fs.take(k as int).push(g));
            reveal(Seq::filter);
            assert(factories@ =~= fs.skip(k as int + 1));
        }
        let (t, available, actions) = g;
        proof {
            let s = fs.take(k as int);
            let u = fs.take(k as int + 1);
            if ff(g) {
                assert(u.filter(ff) =~= s.filter(ff).push(g));
                assert(u.filter(ff).map_values(|g: (AiActionType, bool, Vec<A>)| (g.0, g.2@))
                    =~= s.filter(ff).map_values(|g: (AiActionType, bool, Vec<A>)| (g.0, g.2@)).push(
                    (t, actions@),
                ));
            } else {
                assert(u.filter(ff) =~= s.filter(ff));
            }
        }
        if available && actions.len() > 0 {
            push_group(&mut r, t, actions);
        }
        k = k + 1;
    }
    proof {
        assert(fs.take(k as int) =~= fs);
    }
    let ghost p1 = groups_view(r@);
    if collect.len() > 0 {
        push_group(&mut r, AiActionType::Collect, collect);
    }
    let ghost c0 = collect@;
    proof {
        assert(groups_view(r@) =~= p1 + group_if_any(AiActionType::Collect, c0));
    }
    let ghost p2 = groups_view(r@);
    match happiness {
        Some(h) => {
            let v = vec![h];
            assert(v@ =~= seq![h]);
            push_group(&mut r, AiActionType::IncreaseHappiness, v);
        },
        None => {},
    }
    proof {
        assert(groups_view(r@) =~= p2 + group_of_one(AiActionType::IncreaseHappiness, happiness));
    }
    let ghost p3 = groups_view(r@);
    match influence {
        Some(h) => {
            let v = vec![h];
            assert(v@ =~= seq![h]);
            push_group(&mut r, AiActionType::Collect, v);
        },
        None => {},
    }
    proof {
        assert(groups_view(r@) =~= p3 + group_of_one(AiActionType::Collect, influence));
    }
    let ghost p4 = groups_view(r@);
    let ghost a0 = action_cards@;
    if action_cards.len() > 0 {
        push_group(&mut r, AiActionType::ActionCard, action_cards);
    }
    proof {
        assert(groups_view(r@) =~= p4 + group_if_any(AiActionType::ActionCard, a0));
    }
    let ghost ws = wonder_cards@;
    let ghost wf = |x: (A, bool)| x.1;
    let mut wonders: Vec<A> = Vec::new();
    let mut wonder_cards = wonder_cards;
    let n1 = wonder_cards.len();
    assert(ws.len() == n1);
    let mut k: usize = 0;
    proof {
        assert(ws.take(0).filter(wf) =~= Seq::<(A, bool)>::empty());
        assert(wonders@ =~= ws.take(0).filter(wf).map_values(|x: (A, bool)| x.0));
    }
    while wonder_cards.len() > 0
        invariant
            k + wonder_cards@.len() == ws.len(),
            ws.len() <= usize::MAX,
            wonder_cards@ == ws.skip(k as int),
            wf == (|x: (A, bool)| x.1),
            wonders@ == ws.take(k as int).filter(wf).map_values(|x: (A, bool)| x.0),
        decreases wonder_cards@.len(),
    {
        let w = wonder_cards.remove(0);
        proof {
            assert(w == ws[k as int]);
            assert(ws.take(k as int + 1).drop_last() =~= ws.take(k as int));
            reveal(Seq::filter);
            assert(wonder_cards@ =~= ws.skip(k as int + 1));
            let s = ws.take(k as int);
            let u = ws.take(k as int + 1);
            if wf(w) {
                assert(u.filter(wf) =~= s.filter(wf).push(w));
                assert(u.filter(wf).map_values(|x: (A, bool)| x.0) =~= s.filter(wf).map_values(
                    |x: (A, bool)| x.0,
                ).push(w.0));
            } else {
                assert(u.filter(wf) =~= s.filter(wf));
            }
        }
        let (a, playable) = w;
        if playable {
            wonders.push(a);
        }
        k = k + 1;
    }
    proof {
        assert(ws.take(k as int) =~= ws);
    }
    let ghost p5 = groups_view(r@);
    let ghost w0 = wonders@;
    if wonders.len() > 0 {
        push_group(&mut r, AiActionType::WonderCard, wonders);
    }
    proof {
        assert(groups_view(r@) =~= p5 + group_if_any(AiActionType::WonderCard, w0));
    }
    let ghost p6 = groups_view(r@);
    let ghost cs = custom@;
    let mut custom = custom;
    let n2 = custom.len();
    assert(cs.len() == n2);
    let mut k: usize = 0;
    proof {
        assert(groups_view(r@) =~= p6 + cs.take(0).map_values(
            |c: (CustomActionType, A)| (AiActionType::Custom(c.0), seq![c.1]),
        ));
    }
    while custom.len() > 0
        invariant
            k + custom@.len() == cs.len(),
            cs.len() <= usize::MAX,
            custom@ == cs.skip(k as int),
            groups_view(r@) == p6 + cs.take(k as int).map_values(
                |c: (CustomActionType, A)| (AiActionType::Custom(c.0), seq![c.1]),
            ),
        decreases custom@.len(),
    {
        let c = custom.remove(0);
        proof {
            assert(c == cs[k as int]);
            assert(custom@ =~= cs.skip(k as int + 1));
            assert(cs.take(k as int + 1).map_values(
                |c: (CustomActionType, A)| (AiActionType::Custom(c.0), seq![c.1]),
            ) =~= cs.take(k as int).map_values(
                |c: (CustomActionType, A)| (AiActionType::Custom(c.0), seq![c.1]),
            ).push((AiActionType::Custom(c.0), seq![c.1])));
        }
        let (t, a) = c;
        let v = vec![a];
        proof {
            assert(v@ =~= seq![a]);
        }
        push_group(&mut r, AiActionType::Custom(t), v);
        proof {
            assert(p6 + cs.take(k as int + 1).map_values(
                |c: (CustomActionType, A)| (AiActionType::Custom(c.0), seq![c.1]),
            ) =~= (p6 + cs.take(k as int).map_values(
                |c: (CustomActionType, A)| (AiActionType::Custom(c.0), seq![c.1]),
            )).push((AiActionType::Custom(t), seq![a])));
        }
        k = k + 1;
    }
    proof {
        assert(cs.take(k as int) =~= cs);
    }
    r
}

/// Which of the selections a computer player answers with.
#[derive(Clone, Copy, Debug, PartialEq, Eq, Structural)]
pub enum SelectMultiStrategy {
    /// Only the first selection.
    Min,
    /// Only the last selection.
    Max,
    /// All selections.
    All,
}

/// The selections of `0..n` (each as increasing indices) with a size from `needed` among the
/// sizes up to `k`: by size, and in lexicographic order within a size, as the subsets of a
/// powerset come.
pub open spec fn selections_upto(n: int, needed: Seq<u8>, k: int) -> Seq<Seq<usize>>
    decreases k + 1,
{
    if k < 0 {
        seq![]
    } else {
        selections_upto(n, needed, k - 1) + if needed.contains(k as u8) {
            combinations_from(0, n, k)
        } else {
            seq![]
        }
    }
}

/// The selections a strategy keeps.
pub open spec fn by_strategy(all: Seq<Seq<usize>>, strategy: SelectMultiStrategy) -> Seq<Seq<usize>> {
    match strategy {
        SelectMultiStrategy::All => all,
        SelectMultiStrategy::Min => if all.len() > 0 {
            seq![all[0]]
        } else {
            seq![]
        },
        SelectMultiStrategy::Max => if all.len() > 0 {
            seq![all.last()]
        } else {
            seq![]
        },
    }
}

/// Whether `x` is among `s`.
fn contains_u8(s: &[u8], x: u8) -> (r: bool)
    ensures
        r == s@.contains(x),
{
    let mut i: usize = 0;
    while i < s.len()
        invariant
            i <= s@.len(),
            forall|j: int| 0 <= j < i ==> s@[j] != x,
        decreases s@.len() - i,
    {
        if s[i] == x {
            return true;
        }
        i = i + 1;
    }
    false
}

/// The selections out of `n` choices that a computer player considers for a request that
/// needs one of the sizes `needed` (as indices of the choices; see `selections_upto`), kept
/// as `strategy` says.
pub fn select_multi(n: usize, needed: &[u8], strategy: SelectMultiStrategy) -> (r: Vec<Vec<usize>>)
    ensures
        views(r@) == by_strategy(selections_upto(n as int, needed@, n as int), strategy),
{
    let mut all: Vec<Vec<usize>> = Vec::new();
    let mut k: usize = 0;
    loop
        invariant_except_break
            views(all@) == selections_upto(n as int, needed@, k as int - 1),
        invariant
            k <= n,
        ensures
            views(all@) == selections_upto(n as int, needed@, n as int),
        decreases n - k,
    {
        #[verifier::truncate]
        let size = k as u8;
        if contains_u8(needed, size) {
            let mut c = generate_all_combinations(n, k);
            proof {
                assert(views(all@ + c@) =~= views(all@) + views(c@));
            }
            all.append(&mut c);
        } else {
            proof {
                assert(selections_upto(n as int, needed@, k as int) =~= selections_upto(
                    n as int,
                    needed@,
                    k as int - 1,
                ));
            }
        }
        if k == n {
            break;
        }
        k = k + 1;
    }
    match strategy {
        SelectMultiStrategy::All => all,
        SelectMultiStrategy::Min => {
            if all.len() > 0 {
                let ghost a = views(all@);
                let first = all.swap_remove(0);
                let r = vec![first];
                proof {
                    assert(views(r@) =~= seq![a[0]]);
                }
                r
            } else {
                Vec::new()
            }
        },
        SelectMultiStrategy::Max => {
            if all.len() > 0 {
                let ghost a = views(all@);
                let last = all.pop().unwrap();
                let r = vec![last];
                proof {
                    assert(views(r@) =~= seq![a.last()]);
                }
                r
            } else {
                Vec::new()
            }
        },
    }
}


/// A request that the computer player answers.
#[derive(Clone, Debug)]
pub enum EventRequest {
    /// A reward of resources, with its default choice.
    ResourceReward(ResourcePile),
    SelectAdvance(Vec<Advance>),
    SelectPlayer(Vec<usize>),
    SelectUnitType(Vec<UnitType>),
    /// Positions to select, with the sizes a selection may have and how many selections the
    /// computer player tries.
    SelectPositions { choices: Vec<Position>, needed: Vec<u8>, strategy: SelectMultiStrategy },
    /// Units to select, with the sizes a selection may have.
    SelectUnits { choices: Vec<u32>, needed: Vec<u8> },
    Bool,
    ExploreResolution,
}

/// An answer to a request.
#[derive(Clone, Debug, PartialEq, Eq)]
pub enum EventResponse {
    ResourceReward(ResourcePile),
    SelectAdvance(Advance),
    SelectPlayer(usize),
    SelectUnitType(UnitType),
    SelectPositions(Vec<Position>),
    SelectUnits(Vec<u32>),
    Bool(bool),
    ExploreResolution(u8),
}

/// An answer seen with sequences.
pub enum ResponseView {
    ResourceReward(ResourcePile),
    SelectAdvance(Advance),
    SelectPlayer(usize),
    SelectUnitType(UnitType),
    SelectPositions(Seq<Position>),
    SelectUnits(Seq<u32>),
    Bool(bool),
    ExploreResolution(u8),
}

pub open spec fn response_view(r: EventResponse) -> ResponseView {
    match r {
        EventResponse::ResourceReward(p) => ResponseView::ResourceReward(p),
        EventResponse::SelectAdvance(a) => ResponseView::SelectAdvance(a),
        EventResponse::SelectPlayer(p) => ResponseView::SelectPlayer(p),
        EventResponse::SelectUnitType(t) => ResponseView::SelectUnitType(t),
        EventResponse::SelectPositions(v) => ResponseView::SelectPositions(v@),
        EventResponse::SelectUnits(v) => ResponseView::SelectUnits(v@),
        EventResponse::Bool(b) => ResponseView::Bool(b),
        EventResponse::ExploreResolution(n) => ResponseView::ExploreResolution(n),
    }
}

pub open spec fn responses_view(rs: Seq<EventResponse>) -> Seq<ResponseView> {
    rs.map_values(|r: EventResponse| response_view(r))
}

/// The choices picked by the indices `idx`.
pub open spec fn picked<T>(choices: Seq<T>, idx: Seq<usize>) -> Seq<T> {
    idx.map_values(|i: usize| choices[i as int])
}

/// The answers the computer player tries for a request: the default reward; each single
/// choice of an advance, a player or a unit type; the selections of positions (by the
/// strategy) or units (all), as `select_multi` lists them; both answers to a yes-or-no
/// question; and the resolutions 0 and 3 of an exploration.
pub open spec fn spec_responses(req: EventRequest) -> Seq<ResponseView> {
    match req {
        EventRequest::ResourceReward(p) => seq![ResponseView::ResourceReward(p)],
        EventRequest::SelectAdvance(cs) => cs@.map_values(|c: Advance| ResponseView::SelectAdvance(c)),
        EventRequest::SelectPlayer(cs) => cs@.map_values(|c: usize| ResponseView::SelectPlayer(c)),
        EventRequest::SelectUnitType(cs) => cs@.map_values(|c: UnitType| ResponseView::SelectUnitType(c)),
        EventRequest::SelectPositions { choices, needed, strategy } => by_strategy(
            selections_upto(choices@.len() as int, needed@, choices@.len() as int),
            strategy,
        ).map_values(|idx: Seq<usize>| ResponseView::SelectPositions(picked(choices@, idx))),
        EventRequest::SelectUnits { choices, needed } => by_strategy(
            selections_upto(choices@.len() as int, needed@, choices@.len() as int),
            SelectMultiStrategy::All,
        ).map_values(|idx: Seq<usize>| ResponseView::SelectUnits(picked(choices@, idx))),
        EventRequest::Bool => seq![ResponseView::Bool(false), ResponseView::Bool(true)],
        EventRequest::ExploreResolution => seq![
            ResponseView::ExploreResolution(0),
            ResponseView::ExploreResolution(3),
        ],
    }
}

/// Every index of a listed selection is below `n`.
pub proof fn lemma_selections_in_range(n: int, needed: Seq<u8>, k: int)
    requires
        0 <= n <= usize::MAX,
    ensures
        forall|s: Seq<usize>, i: int|
            #![trigger selections_upto(n, needed, k).contains(s), s[i]]
            selections_upto(n, needed, k).contains(s) && 0 <= i < s.len() ==> s[i] < n,
    decreases k + 1,
{
    if k >= 0 {
        lemma_selections_in_range(n, needed, k - 1);
        let prev = selections_upto(n, needed, k - 1);
        let add = if needed.contains(k as u8) { combinations_from(0, n, k) } else { seq![] };
        assert forall|s: Seq<usize>, i: int|
            selections_upto(n, needed, k).contains(s) && 0 <= i < s.len() implies s[i] < n by {
            let j = choose|j: int| 0 <= j < selections_upto(n, needed, k).len() && selections_upto(n, needed, k)[j] == s;
            if j < prev.len() {
                assert(prev[j] == s);
                assert(prev.contains(s));
            } else {
                assert(add[j - prev.len()] == s);
                lemma_combinations_members(0, n, k, s);
                assert(add.contains(s));
                assert(is_combination(s, 0, n, k));
            }
        }
    }
}

/// The choices picked by the indices `idx`.
fn pick<T: Copy>(choices: &Vec<T>, idx: &Vec<usize>) -> (r: Vec<T>)
    requires
        forall|i: int| 0 <= i < idx@.len() ==> idx@[i] < choices@.len(),
    ensures
        r@ == picked(choices@, idx@),
{
    let mut r: Vec<T> = Vec::new();
    let mut i: usize = 0;
    while i < idx.len()
        invariant
            i <= idx@.len(),
            forall|j: int| 0 <= j < idx@.len() ==> idx@[j] < choices@.len(),
            r@ == picked(choices@, idx@.take(i as int)),
        decreases idx@.len() - i,
    {
        r.push(choices[idx[i]]);
        proof {
            assert(idx@.take(i as int + 1) =~= idx@.take(i as int).push(idx@[i as int]));
            assert(r@ =~= picked(choices@, idx@.take(i as int + 1)));
        }
        i = i + 1;
    }
    proof {
        assert(idx@.take(i as int) =~= idx@);
    }
    r
}

/// The responses for selections `sel` of positions (`units` false) or units.
fn selection_responses_positions(choices: &Vec<Position>, sel: Vec<Vec<usize>>) -> (r: Vec<EventResponse>)
    requires
        forall|s: int, i: int| 0 <= s < sel@.len() && 0 <= i < sel@[s]@.len() ==> #[trigger] sel@[s]@[i] < choices@.len(),
    ensures
        responses_view(r@) == views(sel@).map_values(
            |idx: Seq<usize>| ResponseView::SelectPositions(picked(choices@, idx)),
        ),
{
    let mut r: Vec<EventResponse> = Vec::new();
    let mut k: usize = 0;
    while k < sel.len()
        invariant
            k <= sel@.len(),
            forall|s: int, i: int| 0 <= s < sel@.len() && 0 <= i < sel@[s]@.len() ==> #[trigger] sel@[s]@[i] < choices@.len(),
            responses_view(r@) == views(sel@.take(k as int)).map_values(
                |idx: Seq<usize>| ResponseView::SelectPositions(picked(choices@, idx)),
            ),
        decreases sel@.len() - k,
    {
        let p = pick(choices, &sel[k]);
        let ghost prev = r@;
        r.push(EventResponse::SelectPositions(p));
        proof {
            assert(responses_view(r@) =~= responses_view(prev).push(ResponseView::SelectPositions(p@)));
            assert(sel@.take(k as int + 1) =~= sel@.take(k as int).push(sel@[k as int]));
            assert(views(sel@.take(k as int + 1)) =~= views(sel@.take(k as int)).push(sel@[k as int]@));
            assert(responses_view(r@) =~= views(sel@.take(k as int + 1)).map_values(
                |idx: Seq<usize>| ResponseView::SelectPositions(picked(choices@, idx)),
            ));
        }
        k = k + 1;
    }
    proof {
        assert(sel@.take(k as int) =~= sel@);
    }
    r
}

fn selection_responses_units(choices: &Vec<u32>, sel: Vec<Vec<usize>>) -> (r: Vec<EventResponse>)
    requires
        forall|s: int, i: int| 0 <= s < sel@.len() && 0 <= i < sel@[s]@.len() ==> #[trigger] sel@[s]@[i] < choices@.len(),
    ensures
        responses_view(r@) == views(sel@).map_values(
            |idx: Seq<usize>| ResponseView::SelectUnits(picked(choices@, idx)),
        ),
{
    let mut r: Vec<EventResponse> = Vec::new();
    let mut k: usize = 0;
    while k < sel.len()
        invariant
            k <= sel@.len(),
            forall|s: int, i: int| 0 <= s < sel@.len() && 0 <= i < sel@[s]@.len() ==> #[trigger] sel@[s]@[i] < choices@.len(),
            responses_view(r@) == views(sel@.take(k as int)).map_values(
                |idx: Seq<usize>| ResponseView::SelectUnits(picked(choices@, idx)),
            ),
        decreases sel@.len() - k,
    {
        let p = pick(choices, &sel[k]);
        let ghost prev = r@;
        r.push(EventResponse::SelectUnits(p));
        proof {
            assert(responses_view(r@) =~= responses_view(prev).push(ResponseView::SelectUnits(p@)));
            assert(sel@.take(k as int + 1) =~= sel@.take(k as int).push(sel@[k as int]));
            assert(views(sel@.take(k as int + 1)) =~= views(sel@.take(k as int)).push(sel@[k as int]@));
            assert(responses_view(r@) =~= views(sel@.take(k as int + 1)).map_values(
                |idx: Seq<usize>| ResponseView::SelectUnits(picked(choices@, idx)),
            ));
        }
        k = k + 1;
    }
    proof {
        assert(sel@.take(k as int) =~= sel@);
    }
    r
}

/// A strategy keeps only listed selections.
proof fn lemma_by_strategy_subset(all: Seq<Seq<usize>>, strategy: SelectMultiStrategy, s: Seq<usize>)
    requires
        by_strategy(all, strategy).contains(s),
    ensures
        all.contains(s),
{
    match strategy {
        SelectMultiStrategy::All => {},
        SelectMultiStrategy::Min => {
            assert(by_strategy(all, strategy)[0] == s);
            assert(all[0] == s);
        },
        SelectMultiStrategy::Max => {
            assert(by_strategy(all, strategy)[0] == s);
            assert(all[all.len() - 1] == s);
        },
    }
}

/// The answers the computer player tries for a request (see `spec_responses`).
pub fn ai_responses(req: &EventRequest) -> (r: Vec<EventResponse>)
    ensures
        responses_view(r@) == spec_responses(*req),
{
    match req {
        EventRequest::ResourceReward(p) => {
            let r = vec![EventResponse::ResourceReward(*p)];
            proof {
                assert(responses_view(r@) =~= seq![ResponseView::ResourceReward(*p)]);
            }
            r
        },
        EventRequest::SelectAdvance(cs) => advance_responses(cs),
        EventRequest::SelectPlayer(cs) => player_responses(cs),
        EventRequest::SelectUnitType(cs) => unit_type_responses(cs),
        EventRequest::SelectPositions { choices, needed, strategy } => {
            let sel = select_multi(choices.len(), needed, *strategy);
            proof {
                let n = choices@.len() as int;
                lemma_selections_in_range(n, needed@, n);
                assert forall|s: int, i: int| 0 <= s < sel@.len() && 0 <= i < sel@[s]@.len() implies #[trigger] sel@[s]@[i] < choices@.len() by {
                    let all = selections_upto(n, needed@, n);
                    assert(views(sel@)[s] == sel@[s]@);
                    assert(by_strategy(all, *strategy).contains(sel@[s]@));
                    lemma_by_strategy_subset(all, *strategy, sel@[s]@);
                    assert(all.contains(sel@[s]@));
                }
            }
            let r = selection_responses_positions(choices, sel);
            r
        },
        EventRequest::SelectUnits { choices, needed } => {
            let sel = select_multi(choices.len(), needed, SelectMultiStrategy::All);
            proof {
                let n = choices@.len() as int;
                lemma_selections_in_range(n, needed@, n);
                assert forall|s: int, i: int| 0 <= s < sel@.len() && 0 <= i < sel@[s]@.len() implies #[trigger] sel@[s]@[i] < choices@.len() by {
                    let all = selections_upto(n, needed@, n);
                    assert(views(sel@)[s] == sel@[s]@);
                    assert(all.contains(sel@[s]@));
                }
            }
            selection_responses_units(choices, sel)
        },
        EventRequest::Bool => {
            let r = vec![EventResponse::Bool(false), EventResponse::Bool(true)];
            proof {
                assert(responses_view(r@) =~= seq![ResponseView::Bool(false), ResponseView::Bool(true)]);
            }
            r
        },
        EventRequest::ExploreResolution => {
            let r = vec![EventResponse::ExploreResolution(0), EventResponse::ExploreResolution(3)];
            proof {
                assert(responses_view(r@) =~= seq![
                    ResponseView::ExploreResolution(0),
                    ResponseView::ExploreResolution(3),
                ]);
            }
            r
        },
    }
}

fn advance_responses(choices: &Vec<Advance>) -> (r: Vec<EventResponse>)
    ensures
        responses_view(r@) == choices@.map_values(|c: Advance| ResponseView::SelectAdvance(c)),
{
    let mut r: Vec<EventResponse> = Vec::new();
    let mut i: usize = 0;
    while i < choices.len()
        invariant
            i <= choices@.len(),
            responses_view(r@) == choices@.take(i as int).map_values(|c: Advance| ResponseView::SelectAdvance(c)),
        decreases choices@.len() - i,
    {
        let c = choices[i];
        let ghost prev = r@;
        r.push(EventResponse::SelectAdvance(c));
        proof {
            assert(responses_view(r@) =~= responses_view(prev).push(ResponseView::SelectAdvance(c)));
            assert(choices@.take(i as int + 1) =~= choices@.take(i as int).push(c));
            assert(responses_view(r@) =~= choices@.take(i as int + 1).map_values(
                |c: Advance| ResponseView::SelectAdvance(c),
            ));
        }
        i = i + 1;
    }
    proof {
        assert(choices@.take(i as int) =~= choices@);
    }
    r
}

fn player_responses(choices: &Vec<usize>) -> (r: Vec<EventResponse>)
    ensures
        responses_view(r@) == choices@.map_values(|c: usize| ResponseView::SelectPlayer(c)),
{
    let mut r: Vec<EventResponse> = Vec::new();
    let mut i: usize = 0;
    while i < choices.len()
        invariant
            i <= choices@.len(),
            responses_view(r@) == choices@.take(i as int).map_values(|c: usize| ResponseView::SelectPlayer(c)),
        decreases choices@.len() - i,
    {
        let c = choices[i];
        let ghost prev = r@;
        r.push(EventResponse::SelectPlayer(c));
        proof {
            assert(responses_view(r@) =~= responses_view(prev).push(ResponseView::SelectPlayer(c)));
            assert(choices@.take(i as int + 1) =~= choices@.take(i as int).push(c));
            assert(responses_view(r@) =~= choices@.take(i as int + 1).map_values(
                |c: usize| ResponseView::SelectPlayer(c),
            ));
        }
        i = i + 1;
    }
    proof {
        assert(choices@.take(i as int) =~= choices@);
    }
    r
}

fn unit_type_responses(choices: &Vec<UnitType>) -> (r: Vec<EventResponse>)
    ensures
        responses_view(r@) == choices@.map_values(|c: UnitType| ResponseView::SelectUnitType(c)),
{
    let mut r: Vec<EventResponse> = Vec::new();
    let mut i: usize = 0;
    while i < choices.len()
        invariant
            i <= choices@.len(),
            responses_view(r@) == choices@.take(i as int).map_values(|c: UnitType| ResponseView::SelectUnitType(c)),
        decreases choices@.len() - i,
    {
        let c = choices[i];
        let ghost prev = r@;
        r.push(EventResponse::SelectUnitType(c));
        proof {
            assert(responses_view(r@) =~= responses_view(prev).push(ResponseView::SelectUnitType(c)));
            assert(choices@.take(i as int + 1) =~= choices@.take(i as int).push(c));
            assert(responses_view(r@) =~= choices@.take(i as int + 1).map_values(
                |c: UnitType| ResponseView::SelectUnitType(c),
            ));
        }
        i = i + 1;
    }
    proof {
        assert(choices@.take(i as int) =~= choices@);
    }
    r
}

} // verus!
