use vstd::prelude::*;

use crate::collect::{count_range2, total_of, CollectInfo, PositionCollection};
use crate::position::{hex_distance, Position};
use crate::resource_pile::{empty_pile, ResourcePile};

verus! {

/// The elements of a sequence of vectors.
pub open spec fn views(v: Seq<Vec<usize>>) -> Seq<Seq<usize>> {
    v.map_values(|x: Vec<usize>| x@)
}

/// Each sequence of `ss` with `p` put in front.
pub open spec fn with_prefix(p: Seq<usize>, ss: Seq<Seq<usize>>) -> Seq<Seq<usize>> {
    ss.map_values(|s: Seq<usize>| p + s)
}

/// The `k`-element combinations of the numbers `start..n`, each written in increasing order,
/// listed in lexicographic order.
pub open spec fn combinations_from(start: int, n: int, k: int) -> Seq<Seq<usize>>
    decreases k, n - start,
{
    if k <= 0 {
        seq![Seq::empty()]
    } else if start + k > n {
        Seq::empty()
    } else {
        with_prefix(seq![start as usize], combinations_from(start + 1, n, k - 1)) + combinations_from(
            start + 1,
            n,
            k,
        )
    }
}

/// `s` picks `k` numbers out of `start..n`, in increasing order.
pub open spec fn is_combination(s: Seq<usize>, start: int, n: int, k: int) -> bool {
    &&& s.len() == k
    &&& forall|i: int| 0 <= i < s.len() ==> start <= #[trigger] s[i] < n
    &&& forall|i: int, j: int| 0 <= i < j < s.len() ==> s[i] < s[j]
}

/// An increasing sequence climbs at least one step per element.
proof fn lemma_increasing_lower_bound(s: Seq<usize>, start: int, n: int, k: int, i: int)
    requires
        is_combination(s, start, n, k),
        0 <= i < s.len(),
    ensures
        s[i] >= start + i,
    decreases i,
{
    if i > 0 {
        lemma_increasing_lower_bound(s, start, n, k, i - 1);
    }
}

/// The combinations listed are exactly the increasing choices of `k` numbers out of `start..n`.
pub proof fn lemma_combinations_members(start: int, n: int, k: int, s: Seq<usize>)
    requires
        0 <= start,
        0 <= k,
        n <= usize::MAX,
    ensures
        combinations_from(start, n, k).contains(s) <==> is_combination(s, start, n, k),
    decreases k, n - start,
{
    if k == 0 {
        if is_combination(s, start, n, k) {
            assert(s =~= Seq::<usize>::empty());
            assert(combinations_from(start, n, k)[0] == s);
        }
    } else if start + k > n {
        if is_combination(s, start, n, k) {
            lemma_increasing_lower_bound(s, start, n, k, k - 1);
        }
    } else {
        let head = with_prefix(seq![start as usize], combinations_from(start + 1, n, k - 1));
        let tail = combinations_from(start + 1, n, k);
        assert(combinations_from(start, n, k) == head + tail);
        if combinations_from(start, n, k).contains(s) {
            let all = head + tail;
            let idx = choose|idx: int| 0 <= idx < all.len() && #[trigger] all[idx] == s;
            if idx < head.len() {
                let t = combinations_from(start + 1, n, k - 1)[idx];
                assert(combinations_from(start + 1, n, k - 1).contains(t));
                lemma_combinations_members(start + 1, n, k - 1, t);
                assert(s == seq![start as usize] + t);
                assert forall|i: int, j: int| 0 <= i < j < s.len() implies s[i] < s[j] by {
                    if i > 0 {
                        assert(s[i] == t[i - 1]);
                    }
                    assert(s[j] == t[j - 1]);
                }
                assert forall|i: int| 0 <= i < s.len() implies start <= #[trigger] s[i] < n by {
                    if i > 0 {
                        assert(s[i] == t[i - 1]);
                    }
                }
            } else {
                assert(tail[idx - head.len()] == s);
                assert(tail.contains(s));
                lemma_combinations_members(start + 1, n, k, s);
            }
        }
        if is_combination(s, start, n, k) {
            if s[0] == start {
                let t = s.drop_first();
                assert forall|i: int| 0 <= i < t.len() implies start + 1 <= #[trigger] t[i] < n by {
                    assert(s[0] < s[i + 1]);
                }
                assert forall|i: int, j: int| 0 <= i < j < t.len() implies t[i] < t[j] by {
                    assert(s[i + 1] < s[j + 1]);
                }
                lemma_combinations_members(start + 1, n, k - 1, t);
                let inner = combinations_from(start + 1, n, k - 1);
                let idx = choose|idx: int| 0 <= idx < inner.len() && #[trigger] inner[idx] == t;
                assert(seq![start as usize] + t =~= s);
                assert(head[idx] == s);
                assert((head + tail)[idx] == s);
            } else {
                assert forall|i: int| 0 <= i < s.len() implies start + 1 <= #[trigger] s[i] < n by {
                    if i > 0 {
                        assert(s[0] < s[i]);
                    }
                }
                lemma_combinations_members(start + 1, n, k, s);
                let idx = choose|idx: int| 0 <= idx < tail.len() && #[trigger] tail[idx] == s;
                assert((head + tail)[head.len() + idx] == s);
            }
        }
    }
}

/// No combination is listed twice.
pub proof fn lemma_combinations_distinct(start: int, n: int, k: int)
    requires
        0 <= start,
        0 <= k,
        n <= usize::MAX,
    ensures
        combinations_from(start, n, k).no_duplicates(),
    decreases k, n - start,
{
    if k > 0 && start + k <= n {
        let inner = combinations_from(start + 1, n, k - 1);
        let head = with_prefix(seq![start as usize], inner);
        let tail = combinations_from(start + 1, n, k);
        lemma_combinations_distinct(start + 1, n, k - 1);
        lemma_combinations_distinct(start + 1, n, k);
        assert(combinations_from(start, n, k) == head + tail);
        assert forall|i: int, j: int| 0 <= i < (head + tail).len() && 0 <= j < (head + tail).len() && i != j
            implies (head + tail)[i] != (head + tail)[j] by {
            if i < head.len() && j < head.len() {
                assert(head[i] == seq![start as usize] + inner[i]);
                assert(head[j] == seq![start as usize] + inner[j]);
                if head[i] == head[j] {
                    assert(inner[i] =~= head[i].drop_first());
                    assert(inner[j] =~= head[j].drop_first());
                }
            } else if i >= head.len() && j >= head.len() {
                assert((head + tail)[i] == tail[i - head.len()]);
                assert((head + tail)[j] == tail[j - head.len()]);
            } else {
                let (h, t) = if i < head.len() { (i, j - head.len()) } else { (j, i - head.len()) };
                assert(tail.contains(tail[t]));
                lemma_combinations_members(start + 1, n, k, tail[t]);
                assert(head[h][0] == start);
                assert(tail[t][0] >= start + 1);
            }
        }
    }
}

/// Fills the positions `index..k` of `current` with every increasing choice out of `start..n`,
/// recording each completed combination.
fn backtrack(
    start: usize,
    n: usize,
    k: usize,
    index: usize,
    current: &mut Vec<usize>,
    combinations: &mut Vec<Vec<usize>>,
)
    requires
        index <= k <= n,
        old(current)@.len() == k,
    ensures
        final(current)@.len() == k,
        final(current)@.take(index as int) == old(current)@.take(index as int),
        views(final(combinations)@) == views(old(combinations)@) + with_prefix(
            old(current)@.take(index as int),
            combinations_from(start as int, n as int, (k - index) as int),
        ),
    decreases k - index,
{
    let ghost p = current@.take(index as int);
    let ghost c0 = views(combinations@);
    if index == k {
        let c = current.clone();
        proof {
            assert(c@ =~= current@);
            assert(p + Seq::<usize>::empty() =~= current@);
            assert(views(combinations@.push(c)) =~= c0 + with_prefix(p, seq![Seq::empty()]));
        }
        combinations.push(c);
        return;
    }
    let end = n - k + index;
    let ghost kk = (k - index) as int;
    if start > end {
        proof {
            assert(with_prefix(p, combinations_from(start as int, n as int, kk)) =~= Seq::empty());
            assert(c0 + Seq::<Seq<usize>>::empty() =~= c0);
        }
        return;
    }
    let mut num = start;
    proof {
        assert(with_prefix(p, combinations_from(start as int, n as int, kk)) =~= Seq::empty() + with_prefix(
            p,
            combinations_from(num as int, n as int, kk),
        ));
    }
    while num <= end
        invariant
            start <= num <= end + 1,
            end == n - k + index,
            index < k <= n,
            kk == k - index,
            current@.len() == k,
            current@.take(index as int) == p,
            c0 + with_prefix(p, combinations_from(start as int, n as int, kk)) == views(combinations@)
                + with_prefix(p, combinations_from(num as int, n as int, kk)),
        decreases end + 1 - num,
    {
        let ghost before = views(combinations@);
        current.set(index, num);
        proof {
            assert(current@.take(index as int) =~= p);
            assert(current@.take(index as int + 1) =~= p.push(num));
        }
        backtrack(num + 1, n, k, index + 1, current, combinations);
        proof {
            let rest = combinations_from(num as int + 1, n as int, kk - 1);
            let next = combinations_from(num as int + 1, n as int, kk);
            assert(combinations_from(num as int, n as int, kk) == with_prefix(seq![num], rest) + next);
            assert(with_prefix(p, with_prefix(seq![num], rest)) =~= with_prefix(p.push(num), rest)) by {
                assert forall|i: int| 0 <= i < rest.len() implies #[trigger] with_prefix(
                    p,
                    with_prefix(seq![num], rest),
                )[i] == with_prefix(p.push(num), rest)[i] by {
                    assert(p + (seq![num] + rest[i]) =~= p.push(num) + rest[i]);
                }
            }
            assert(with_prefix(p, with_prefix(seq![num], rest) + next) =~= with_prefix(
                p,
                with_prefix(seq![num], rest),
            ) + with_prefix(p, next));
            assert(current@.take(index as int) =~= current@.take(index as int + 1).take(index as int));
            assert(before + (with_prefix(p.push(num), rest) + with_prefix(p, next)) =~= (before
                + with_prefix(p.push(num), rest)) + with_prefix(p, next));
        }
        num = num + 1;
    }
    proof {
        assert(with_prefix(p, combinations_from(num as int, n as int, kk)) =~= Seq::empty());
        assert(views(combinations@) + Seq::<Seq<usize>>::empty() =~= views(combinations@));
    }
}

/// All combinations of `k` numbers out of `0..n`, each in increasing order, in lexicographic
/// order.
pub fn generate_all_combinations(n: usize, k: usize) -> (r: Vec<Vec<usize>>)
    requires
        k <= n,
    ensures
        views(r@) == combinations_from(0, n as int, k as int),
{
    let mut combinations: Vec<Vec<usize>> = Vec::new();
    let mut current: Vec<usize> = vec![0usize; k];
    backtrack(0, n, k, 0, &mut current, &mut combinations);
    proof {
        let all = combinations_from(0, n as int, k as int);
        assert(with_prefix(current@.take(0), all) =~= all) by {
            assert forall|i: int| 0 <= i < all.len() implies #[trigger] with_prefix(
                Seq::<usize>::empty(),
                all,
            )[i] == all[i] by {
                assert(Seq::<usize>::empty() + all[i] =~= all[i]);
            }
            assert(current@.take(0) =~= Seq::<usize>::empty());
        }
        assert(views(Seq::<Vec<usize>>::empty()) + all =~= all);
    }
    combinations
}


/// The collections of a vector of selections.
pub open spec fn selections(v: Seq<Vec<PositionCollection>>) -> Seq<Seq<PositionCollection>> {
    v.map_values(|x: Vec<PositionCollection>| x@)
}

/// A single collection of `pile` at `position`.
pub open spec fn single(position: Position, pile: ResourcePile) -> PositionCollection {
    PositionCollection { position, pile, times: 1 }
}

/// The choices in the order given by `order`, with their options as sequences.
pub open spec fn ordered_choices(choices: Seq<(Position, Vec<ResourcePile>)>, order: Seq<usize>) -> Seq<
    (Position, Seq<ResourcePile>),
> {
    order.map_values(|i: usize| (choices[i as int].0, choices[i as int].1@))
}

/// Every selection of `rs` extended by one collection at `pos`: for each option in turn,
/// all the selections of `rs` with that option added.
pub open spec fn extend_all(
    rs: Seq<Seq<PositionCollection>>,
    pos: Position,
    options: Seq<ResourcePile>,
) -> Seq<Seq<PositionCollection>>
    decreases options.len(),
{
    if options.len() == 0 {
        Seq::empty()
    } else {
        extend_all(rs, pos, options.drop_last()) + rs.map_values(
            |r: Seq<PositionCollection>| r.push(single(pos, options.last())),
        )
    }
}

/// The selections of `rs` extended at each entry of `list` that `combo` names, in order.
pub open spec fn expand(
    rs: Seq<Seq<PositionCollection>>,
    combo: Seq<usize>,
    list: Seq<(Position, Seq<ResourcePile>)>,
) -> Seq<Seq<PositionCollection>>
    decreases combo.len(),
{
    if combo.len() == 0 {
        rs
    } else {
        let e = list[combo.last() as int];
        extend_all(expand(rs, combo.drop_last(), list), e.0, e.1)
    }
}

/// The resources of all collections, added to the empty pile in order.
pub open spec fn collected(cs: Seq<PositionCollection>) -> ResourcePile
    decreases cs.len(),
{
    if cs.len() == 0 {
        empty_pile()
    } else {
        collected(cs.drop_last()).spec_add(&total_of(cs.last()))
    }
}

/// Every step of `collected` stays within `u8`.
pub open spec fn collected_fits(cs: Seq<PositionCollection>) -> bool
    decreases cs.len(),
{
    if cs.len() == 0 {
        true
    } else {
        &&& collected_fits(cs.drop_last())
        &&& cs.last().pile.can_times(cs.last().times)
        &&& collected(cs.drop_last()).can_add(&total_of(cs.last()))
    }
}

/// Sums the resources of the collections.
pub fn total_collect(r: &Vec<PositionCollection>) -> (t: ResourcePile)
    requires
        collected_fits(r@),
    ensures
        t == collected(r@),
{
    let mut total = ResourcePile::empty();
    let mut i: usize = 0;
    while i < r.len()
        invariant
            0 <= i <= r@.len(),
            collected_fits(r@),
            total == collected(r@.take(i as int)),
        decreases r@.len() - i,
    {
        proof {
            assert(r@.take(i as int + 1).drop_last() =~= r@.take(i as int));
            lemma_collected_fits_prefix(r@, i as int + 1);
        }
        let t = r[i].total();
        total = total.add(&t);
        i = i + 1;
    }
    proof {
        assert(r@.take(r@.len() as int) =~= r@);
    }
    total
}

/// Sums that fit for a sequence fit for its prefixes.
proof fn lemma_collected_fits_prefix(cs: Seq<PositionCollection>, n: int)
    requires
        0 <= n <= cs.len(),
        collected_fits(cs),
    ensures
        collected_fits(cs.take(n)),
    decreases cs.len(),
{
    if n < cs.len() {
        assert(cs.drop_last().take(n) =~= cs.take(n));
        lemma_collected_fits_prefix(cs.drop_last(), n);
    } else {
        assert(cs.take(n) =~= cs);
    }
}


/// A copy of a selection.
fn copy_selection(v: &Vec<PositionCollection>) -> (r: Vec<PositionCollection>)
    ensures
        r@ == v@,
{
    let mut r: Vec<PositionCollection> = Vec::new();
    let mut i: usize = 0;
    while i < v.len()
        invariant
            0 <= i <= v@.len(),
            r@ == v@.take(i as int),
        decreases v@.len() - i,
    {
        r.push(v[i]);
        proof {
            assert(v@.take(i as int + 1) =~= v@.take(i as int).push(v@[i as int]));
        }
        i = i + 1;
    }
    proof {
        assert(v@.take(v@.len() as int) =~= v@);
    }
    r
}

/// Extends every selection of `result` by one collection at `pos`, once for each option.
fn extend_selections(result: &mut Vec<Vec<PositionCollection>>, pos: Position, options: &Vec<ResourcePile>)
    ensures
        selections(final(result)@) == extend_all(selections(old(result)@), pos, options@),
{
    let mut old: Vec<Vec<PositionCollection>> = Vec::new();
    std::mem::swap(&mut old, result);
    let ghost rs = selections(old@);
    proof {
        assert(selections(result@) =~= extend_all(rs, pos, options@.take(0)));
    }
    let mut j: usize = 0;
    while j < options.len()
        invariant
            0 <= j <= options@.len(),
            rs == selections(old@),
            selections(result@) == extend_all(rs, pos, options@.take(j as int)),
        decreases options@.len() - j,
    {
        let pile = options[j];
        let ghost base = selections(result@);
        let ghost added = rs.map_values(|r: Seq<PositionCollection>| r.push(single(pos, pile)));
        let mut m: usize = 0;
        while m < old.len()
            invariant
                0 <= m <= old@.len(),
                rs == selections(old@),
                added == rs.map_values(|r: Seq<PositionCollection>| r.push(single(pos, pile))),
                selections(result@) == base + added.take(m as int),
            decreases old@.len() - m,
        {
            let mut r = copy_selection(&old[m]);
            r.push(PositionCollection::new(pos, pile));
            proof {
                assert(r@ == added[m as int]);
                assert(selections(result@.push(r)) =~= selections(result@).push(r@));
                assert(added.take(m as int + 1) =~= added.take(m as int).push(added[m as int]));
                assert(base + added.take(m as int + 1) =~= (base + added.take(m as int)).push(added[m as int]));
            }
            result.push(r);
            m = m + 1;
        }
        proof {
            assert(added.take(m as int) =~= added);
            assert(options@.take(j as int + 1).drop_last() =~= options@.take(j as int));
            assert(options@.take(j as int + 1).last() == pile);
        }
        j = j + 1;
    }
    proof {
        assert(options@.take(j as int) =~= options@);
    }
}

/// Extends the selections of `result` at each entry of the ordered choices that `combo`
/// names, in order.
fn add_combination(
    combo: &Vec<usize>,
    choices: &Vec<(Position, Vec<ResourcePile>)>,
    order: &Vec<usize>,
    result: &mut Vec<Vec<PositionCollection>>,
)
    requires
        forall|i: int| 0 <= i < combo@.len() ==> #[trigger] combo@[i] < order@.len(),
        forall|i: int| 0 <= i < order@.len() ==> #[trigger] order@[i] < choices@.len(),
        forall|i: int|
            0 <= i < combo@.len() ==> choices@[order@[#[trigger] combo@[i] as int] as int].1@.len() > 0,
    ensures
        selections(final(result)@) == expand(
            selections(old(result)@),
            combo@,
            ordered_choices(choices@, order@),
        ),
{
    let ghost rs = selections(result@);
    let ghost list = ordered_choices(choices@, order@);
    let mut i: usize = 0;
    proof {
        assert(combo@.take(0) =~= Seq::<usize>::empty());
    }
    while i < combo.len()
        invariant
            0 <= i <= combo@.len(),
            forall|i: int| 0 <= i < combo@.len() ==> #[trigger] combo@[i] < order@.len(),
            forall|i: int| 0 <= i < order@.len() ==> #[trigger] order@[i] < choices@.len(),
            list == ordered_choices(choices@, order@),
            selections(result@) == expand(rs, combo@.take(i as int), list),
        decreases combo@.len() - i,
    {
        let idx = order[combo[i]];
        let (pos, options) = (choices[idx].0, &choices[idx].1);
        extend_selections(result, pos, options);
        proof {
            let t = combo@.take(i as int + 1);
            assert(t.drop_last() =~= combo@.take(i as int));
            assert(t.last() == combo@[i as int]);
            assert(list[combo@[i as int] as int] == (pos, options@));
        }
        i = i + 1;
    }
    proof {
        assert(combo@.take(i as int) =~= combo@);
    }
}


/// `a` comes no later than `b` when ordered by distance to `city`, then by position.
pub open spec fn closer_or_equal(a: Position, b: Position, city: Position) -> bool {
    ||| hex_distance(a, city) < hex_distance(b, city)
    ||| hex_distance(a, city) == hex_distance(b, city) && (a.q < b.q || (a.q == b.q && a.r <= b.r))
}

/// `order` lists every index of `choices` once, ordered by distance of the position to `city`,
/// then by position.
pub open spec fn by_distance(order: Seq<usize>, choices: Seq<(Position, Vec<ResourcePile>)>, city: Position) -> bool {
    &&& order.len() == choices.len()
    &&& forall|i: int| 0 <= i < order.len() ==> #[trigger] order[i] < choices.len()
    &&& forall|i: int, j: int| 0 <= i < j < order.len() ==> order[i] != order[j]
    &&& forall|i: int, j: int|
        0 <= i < j < order.len() ==> closer_or_equal(
            choices[order[i] as int].0,
            choices[order[j] as int].0,
            city,
        )
}

/// Whether `a` comes no later than `b` when ordered by distance to `city`, then by position.
fn is_closer_or_equal(a: Position, b: Position, city: Position) -> (r: bool)
    ensures
        r == closer_or_equal(a, b, city),
{
    let da = a.distance(city);
    let db = b.distance(city);
    da < db || (da == db && (a.q < b.q || (a.q == b.q && a.r <= b.r)))
}

/// The indices of `choices`, ordered by distance to `city`, then by position; equal keys keep
/// their order.
fn sort_by_distance(choices: &Vec<(Position, Vec<ResourcePile>)>, city: Position) -> (order: Vec<usize>)
    ensures
        by_distance(order@, choices@, city),
{
    let mut order: Vec<usize> = Vec::new();
    let mut i: usize = 0;
    while i < choices.len()
        invariant
            0 <= i <= choices@.len(),
            order@.len() == i,
            forall|k: int| 0 <= k < order@.len() ==> #[trigger] order@[k] < i,
            forall|a: int, b: int| 0 <= a < b < order@.len() ==> order@[a] != order@[b],
            forall|a: int, b: int|
                0 <= a < b < order@.len() ==> closer_or_equal(
                    choices@[order@[a] as int].0,
                    choices@[order@[b] as int].0,
                    city,
                ),
        decreases choices@.len() - i,
    {
        let p = choices[i].0;
        let mut j: usize = 0;
        while j < order.len() && is_closer_or_equal(choices[order[j]].0, p, city)
            invariant
                0 <= j <= order@.len(),
                order@.len() == i,
                i < choices@.len(),
                p == choices@[i as int].0,
                forall|k: int| 0 <= k < order@.len() ==> #[trigger] order@[k] < i,
                forall|k: int| 0 <= k < j ==> closer_or_equal(choices@[order@[k] as int].0, p, city),
            decreases order@.len() - j,
        {
            j = j + 1;
        }
        proof {
            if j < order@.len() {
                assert(!closer_or_equal(choices@[order@[j as int] as int].0, p, city));
                assert forall|k: int| j <= k < order@.len() implies closer_or_equal(
                    p,
                    choices@[order@[k] as int].0,
                    city,
                ) by {
                    if k > j {
                        assert(closer_or_equal(
                            choices@[order@[j as int] as int].0,
                            choices@[order@[k] as int].0,
                            city,
                        ));
                    }
                }
            }
        }
        let ghost before = order@;
        order.insert(j, i);
        proof {
            assert(order@ == before.insert(j as int, i));
            assert forall|a: int, b: int| 0 <= a < b < order@.len() implies closer_or_equal(
                choices@[order@[a] as int].0,
                choices@[order@[b] as int].0,
                city,
            ) by {
                if b < j {
                    assert(order@[a] == before[a] && order@[b] == before[b]);
                } else if b == j {
                    assert(order@[a] == before[a]);
                } else if a < j {
                    assert(order@[a] == before[a] && order@[b] == before[b - 1]);
                    assert(closer_or_equal(choices@[before[a] as int].0, p, city));
                    if b - 1 > j {
                        assert(closer_or_equal(p, choices@[before[b - 1] as int].0, city));
                    } else {
                        assert(closer_or_equal(p, choices@[before[b - 1] as int].0, city));
                    }
                } else if a == j {
                    assert(order@[b] == before[b - 1]);
                } else {
                    assert(order@[a] == before[a - 1] && order@[b] == before[b - 1]);
                }
            }
            assert forall|a: int, b: int| 0 <= a < b < order@.len() implies order@[a] != order@[b] by {
                if b < j {
                    assert(order@[a] == before[a] && order@[b] == before[b]);
                } else if b == j {
                    assert(order@[a] == before[a]);
                } else if a < j {
                    assert(order@[a] == before[a] && order@[b] == before[b - 1]);
                } else if a == j {
                    assert(order@[b] == before[b - 1]);
                } else {
                    assert(order@[a] == before[a - 1] && order@[b] == before[b - 1]);
                }
            }
            assert forall|k: int| 0 <= k < order@.len() implies #[trigger] order@[k] < i + 1 by {
                if k < j {
                    assert(order@[k] == before[k]);
                } else if k > j {
                    assert(order@[k] == before[k - 1]);
                }
            }
        }
        i = i + 1;
    }
    order
}


/// The candidate selections: for every combination in turn, all its expansions.
pub open spec fn candidates(
    combos: Seq<Seq<usize>>,
    list: Seq<(Position, Seq<ResourcePile>)>,
) -> Seq<Seq<PositionCollection>>
    decreases combos.len(),
{
    if combos.len() == 0 {
        Seq::empty()
    } else {
        candidates(combos.drop_last(), list) + expand(seq![Seq::empty()], combos.last(), list)
    }
}

/// A selection worth offering: it keeps to the limit on tiles two steps away, where there is
/// one, and collects something.
pub open spec fn worth_collecting(c: Seq<PositionCollection>, city: Position, max_range2_tiles: u8) -> bool {
    &&& (max_range2_tiles == 0 || count_range2(c, city) <= max_range2_tiles)
    &&& collected(c).total() > 0
}

/// Some selection of `d` collects exactly `t`.
pub open spec fn has_total(d: Seq<Seq<PositionCollection>>, t: ResourcePile) -> bool {
    exists|i: int| 0 <= i < d.len() && collected(#[trigger] d[i]) == t
}

/// The candidates worth collecting, the first one for each total.
pub open spec fn select_distinct(
    cands: Seq<Seq<PositionCollection>>,
    city: Position,
    max_range2_tiles: u8,
) -> Seq<Seq<PositionCollection>>
    decreases cands.len(),
{
    if cands.len() == 0 {
        Seq::empty()
    } else {
        let d = select_distinct(cands.drop_last(), city, max_range2_tiles);
        let c = cands.last();
        if worth_collecting(c, city, max_range2_tiles) && !has_total(d, collected(c)) {
            d.push(c)
        } else {
            d
        }
    }
}

/// The number of choices two or more steps from `city`.
pub open spec fn range2_choices(list: Seq<(Position, Seq<ResourcePile>)>, city: Position) -> int
    decreases list.len(),
{
    if list.len() == 0 {
        0
    } else {
        range2_choices(list.drop_last(), city) + if hex_distance(list.last().0, city) > 1 {
            1int
        } else {
            0int
        }
    }
}

/// How many tiles each selection uses: the city size, but no more than there are tiles, not
/// counting the tiles two steps away beyond the limit for those.
pub open spec fn tiles_to_take(
    list: Seq<(Position, Seq<ResourcePile>)>,
    city: Position,
    max_selection: u8,
    max_range2_tiles: u8,
) -> int {
    let tiles = list.len() as int;
    let excess = range2_choices(list, city) - max_range2_tiles;
    let max_tiles = if max_range2_tiles > 0 && excess > 0 {
        tiles - excess
    } else {
        tiles
    };
    if max_selection < max_tiles {
        max_selection as int
    } else {
        max_tiles
    }
}

/// The selections offered for the choices taken in `order`.
pub open spec fn collection_options(info: CollectInfo, order: Seq<usize>) -> Seq<Seq<PositionCollection>> {
    select_distinct(offered_candidates(info, order), info.city, info.max_range2_tiles)
}

/// The candidate selections for the choices taken in `order`.
pub open spec fn offered_candidates(info: CollectInfo, order: Seq<usize>) -> Seq<Seq<PositionCollection>> {
    let list = ordered_choices(info.choices@, order);
    let take = tiles_to_take(list, info.city, info.max_selection, info.max_range2_tiles);
    candidates(combinations_from(0, list.len() as int, take), list)
}

/// A selection keeps to the limit on tiles two steps away, where there is one.
pub open spec fn within_range2_limit(c: Seq<PositionCollection>, city: Position, max_range2_tiles: u8) -> bool {
    max_range2_tiles == 0 || count_range2(c, city) <= max_range2_tiles
}

/// Every candidate selection within the limit on tiles two steps away can be summed within
/// `u8`, whichever ordering by distance is taken.
pub open spec fn sums_fit(info: CollectInfo) -> bool {
    forall|order: Seq<usize>|
        by_distance(order, info.choices@, info.city) ==> forall|i: int|
            0 <= i < offered_candidates(info, order).len() && within_range2_limit(
                offered_candidates(info, order)[i],
                info.city,
                info.max_range2_tiles,
            ) ==> collected_fits(#[trigger] offered_candidates(info, order)[i])
}

/// The candidates of a concatenation of combination lists are those of each list in turn.
proof fn lemma_candidates_append(a: Seq<Seq<usize>>, b: Seq<Seq<usize>>, list: Seq<(Position, Seq<ResourcePile>)>)
    ensures
        candidates(a + b, list) == candidates(a, list) + candidates(b, list),
    decreases b.len(),
{
    if b.len() == 0 {
        assert(a + b =~= a);
        assert(candidates(a, list) + candidates(b, list) =~= candidates(a, list));
    } else {
        lemma_candidates_append(a, b.drop_last(), list);
        assert((a + b).drop_last() =~= a + b.drop_last());
        assert((a + b).last() == b.last());
        let e = expand(seq![Seq::<PositionCollection>::empty()], b.last(), list);
        assert(candidates(a, list) + candidates(b.drop_last(), list) + e =~= candidates(a, list) + (candidates(
            b.drop_last(),
            list,
        ) + e));
    }
}

/// The number of collections two or more steps from `city`.
fn range2_count(c: &Vec<PositionCollection>, city: Position) -> (n: usize)
    ensures
        n == count_range2(c@, city),
{
    let mut n: usize = 0;
    let mut i: usize = 0;
    while i < c.len()
        invariant
            0 <= i <= c@.len(),
            n == count_range2(c@.take(i as int), city),
            n <= i,
        decreases c@.len() - i,
    {
        proof {
            assert(c@.take(i as int + 1).drop_last() =~= c@.take(i as int));
        }
        if c[i].position.distance(city) > 1 {
            n = n + 1;
        }
        i = i + 1;
    }
    proof {
        assert(c@.take(i as int) =~= c@);
    }
    n
}

/// Whether `t` is one of `totals`.
fn contains_total(totals: &Vec<ResourcePile>, t: &ResourcePile) -> (r: bool)
    ensures
        r == totals@.contains(*t),
{
    let mut i: usize = 0;
    while i < totals.len()
        invariant
            0 <= i <= totals@.len(),
            forall|k: int| 0 <= k < i ==> totals@[k] != *t,
        decreases totals@.len() - i,
    {
        if totals[i] == *t {
            return true;
        }
        i = i + 1;
    }
    false
}


/// The selections worth offering to a player who collects with `info`: the tiles are tried
/// nearest first, each selection uses as many tiles as the city may collect (tiles two steps
/// away only up to their limit), and of the selections with the same total only the first is
/// kept.
pub fn possible_collections(info: &CollectInfo) -> (r: Vec<Vec<PositionCollection>>)
    requires
        info.wf(),
        sums_fit(*info),
        info.max_selection > 0 ==> forall|i: int|
            0 <= i < info.choices@.len() ==> (#[trigger] info.choices@[i]).1@.len() > 0,
    ensures
        exists|order: Seq<usize>|
            by_distance(order, info.choices@, info.city) && selections(r@) == collection_options(
                *info,
                order,
            ),
{
    let order = sort_by_distance(&info.choices, info.city);
    let ghost list = ordered_choices(info.choices@, order@);
    let tiles = order.len();
    let mut max_tiles = tiles;
    if info.max_range2_tiles > 0 {
        let mut range2: usize = 0;
        let mut i: usize = 0;
        while i < tiles
            invariant
                0 <= i <= tiles,
                tiles == order@.len(),
                tiles == info.choices@.len(),
                forall|k: int| 0 <= k < order@.len() ==> #[trigger] order@[k] < info.choices@.len(),
                list == ordered_choices(info.choices@, order@),
                range2 == range2_choices(list.take(i as int), info.city),
                range2 <= i,
            decreases tiles - i,
        {
            proof {
                assert(list.take(i as int + 1).drop_last() =~= list.take(i as int));
            }
            if info.choices[order[i]].0.distance(info.city) > 1 {
                range2 = range2 + 1;
            }
            i = i + 1;
        }
        proof {
            assert(list.take(i as int) =~= list);
        }
        let limit = info.max_range2_tiles as usize;
        if range2 > limit {
            max_tiles = tiles - (range2 - limit);
        }
    }
    let take = if (info.max_selection as usize) < max_tiles {
        info.max_selection as usize
    } else {
        max_tiles
    };
    assert(take == tiles_to_take(list, info.city, info.max_selection, info.max_range2_tiles));
    let combos = generate_all_combinations(tiles, take);
    let ghost combo_seqs = combinations_from(0, tiles as int, take as int);
    proof {
        assert(by_distance(order@, info.choices@, info.city));
        assert(offered_candidates(*info, order@) == candidates(combo_seqs, list));
    }
    let ghost city = info.city;
    let ghost limit2 = info.max_range2_tiles;
    let mut result: Vec<Vec<PositionCollection>> = Vec::new();
    let mut totals: Vec<ResourcePile> = Vec::new();
    let mut ci: usize = 0;
    proof {
        assert(combo_seqs.take(0) =~= Seq::<Seq<usize>>::empty());
    }
    while ci < combos.len()
        invariant
            0 <= ci <= combos@.len(),
            views(combos@) == combo_seqs,
            combo_seqs == combinations_from(0, tiles as int, take as int),
            tiles == order@.len(),
            tiles == info.choices@.len(),
            take <= info.max_selection,
            take <= tiles,
            by_distance(order@, info.choices@, info.city),
            list == ordered_choices(info.choices@, order@),
            forall|i: int| 0 <= i < candidates(combo_seqs, list).len() && within_range2_limit(
                candidates(combo_seqs, list)[i],
                info.city,
                info.max_range2_tiles,
            ) ==> collected_fits(#[trigger] candidates(combo_seqs, list)[i]),
            info.max_selection > 0 ==> forall|i: int|
                0 <= i < info.choices@.len() ==> (#[trigger] info.choices@[i]).1@.len() > 0,
            city == info.city,
            limit2 == info.max_range2_tiles,
            totals@.len() == result@.len(),
            forall|k: int| 0 <= k < totals@.len() ==> totals@[k] == collected(#[trigger] selections(result@)[k]),
            selections(result@) == select_distinct(candidates(combo_seqs.take(ci as int), list), city, limit2),
        decreases combos@.len() - ci,
    {
        let ghost combo = combo_seqs[ci as int];
        proof {
            assert(combos@[ci as int]@ == combo);
            assert(combo_seqs.contains(combo));
            lemma_combinations_members(0, tiles as int, take as int, combo);
            assert forall|i: int| 0 <= i < combo.len() implies info.choices@[order@[#[trigger] combo[i] as int] as int].1@.len() > 0 by {
                assert(combo[i] < tiles);
            }
        }
        let mut exp: Vec<Vec<PositionCollection>> = Vec::new();
        exp.push(Vec::new());
        proof {
            assert(selections(exp@) =~= seq![Seq::<PositionCollection>::empty()]);
        }
        add_combination(&combos[ci], &info.choices, &order, &mut exp);
        let ghost ex = selections(exp@);
        let ghost prior = candidates(combo_seqs.take(ci as int), list);
        proof {
            assert(ex == expand(seq![Seq::<PositionCollection>::empty()], combo, list));
            assert(combo_seqs.take(ci as int + 1).drop_last() =~= combo_seqs.take(ci as int));
            assert(combo_seqs =~= combo_seqs.take(ci as int + 1) + combo_seqs.skip(ci as int + 1));
            lemma_candidates_append(combo_seqs.take(ci as int + 1), combo_seqs.skip(ci as int + 1), list);
            assert(candidates(combo_seqs.take(ci as int + 1), list) == prior + ex);
            assert forall|i: int| 0 <= i < ex.len() && within_range2_limit(ex[i], info.city, info.max_range2_tiles)
                implies collected_fits(#[trigger] ex[i]) by {
                let full = candidates(combo_seqs, list);
                assert(full == prior + ex + candidates(combo_seqs.skip(ci as int + 1), list));
                assert(full[prior.len() + i] == ex[i]);
            }
            assert(prior + ex.take(0) =~= prior);
        }
        let mut ei: usize = 0;
        while ei < exp.len()
            invariant
                0 <= ei <= exp@.len(),
                ex == selections(exp@),
                forall|i: int| 0 <= i < ex.len() && within_range2_limit(ex[i], info.city, info.max_range2_tiles)
                    ==> collected_fits(#[trigger] ex[i]),
                city == info.city,
                limit2 == info.max_range2_tiles,
                totals@.len() == result@.len(),
                forall|k: int| 0 <= k < totals@.len() ==> totals@[k] == collected(#[trigger] selections(result@)[k]),
                selections(result@) == select_distinct(prior + ex.take(ei as int), city, limit2),
            decreases exp@.len() - ei,
        {
            let ghost c = ex[ei as int];
            let ghost d = selections(result@);
            proof {
                assert((prior + ex.take(ei as int + 1)).drop_last() =~= prior + ex.take(ei as int));
                assert((prior + ex.take(ei as int + 1)).last() == c);
            }
            let within = info.max_range2_tiles == 0 || range2_count(&exp[ei], info.city) <= info.max_range2_tiles as usize;
            if within {
                let t = total_collect(&exp[ei]);
                let seen = contains_total(&totals, &t);
                proof {
                    if seen {
                        let k = choose|k: int| 0 <= k < totals@.len() && totals@[k] == t;
                        assert(collected(d[k]) == t);
                    } else {
                        assert forall|k: int| 0 <= k < d.len() implies collected(#[trigger] d[k]) != t by {
                            assert(totals@[k] == collected(d[k]));
                        }
                    }
                }
                if t.amount() > 0 && !seen {
                    let copy = copy_selection(&exp[ei]);
                    proof {
                        assert(selections(result@.push(copy)) =~= d.push(c));
                    }
                    result.push(copy);
                    totals.push(t);
                }
            }
            ei = ei + 1;
        }
        proof {
            assert(ex.take(ei as int) =~= ex);
        }
        ci = ci + 1;
    }
    proof {
        assert(combo_seqs.take(ci as int) =~= combo_seqs);
        assert(list.len() == tiles);
        assert(selections(result@) == collection_options(*info, order@));
        assert(by_distance(order@, info.choices@, info.city));
    }
    result
}


/// No two choices are at the same position.
pub open spec fn distinct_positions(choices: Seq<(Position, Vec<ResourcePile>)>) -> bool {
    forall|i: int, j: int| 0 <= i < j < choices.len() ==> choices[i].0 != choices[j].0
}

/// An ordering lists every index.
proof fn lemma_order_covers(order: Seq<usize>, choices: Seq<(Position, Vec<ResourcePile>)>, city: Position, x: int)
    requires
        by_distance(order, choices, city),
        0 <= x < choices.len(),
    ensures
        exists|k: int| 0 <= k < order.len() && order[k] == x,
{
    let n = choices.len() as int;
    let ints = order.map_values(|v: usize| v as int);
    assert(ints.no_duplicates()) by {
        assert forall|a: int, b: int| 0 <= a < ints.len() && 0 <= b < ints.len() && a != b implies ints[a] != ints[b] by {
            if a < b {
                assert(order[a] != order[b]);
            } else {
                assert(order[b] != order[a]);
            }
        }
    }
    ints.unique_seq_to_set();
    vstd::set_lib::lemma_int_range(0, n);
    let range = vstd::set_lib::set_int_range(0, n);
    assert(ints.to_set().subset_of(range)) by {
        assert forall|v: int| ints.to_set().contains(v) implies range.contains(v) by {
            let k = choose|k: int| 0 <= k < ints.len() && ints[k] == v;
            assert(order[k] < choices.len());
        }
    }
    vstd::set_lib::lemma_set_subset_finite(range, ints.to_set());
    vstd::set_lib::lemma_subset_equality(ints.to_set(), range);
    assert(range.contains(x));
    assert(ints.to_set().contains(x));
    let k = choose|k: int| 0 <= k < ints.len() && ints[k] == x;
    assert(order[k] == x);
}

/// Two orderings by distance agree up to index `i`.
proof fn lemma_orders_agree(
    o1: Seq<usize>,
    o2: Seq<usize>,
    choices: Seq<(Position, Vec<ResourcePile>)>,
    city: Position,
    i: int,
)
    requires
        by_distance(o1, choices, city),
        by_distance(o2, choices, city),
        distinct_positions(choices),
        0 <= i < choices.len(),
    ensures
        forall|k: int| 0 <= k <= i ==> o1[k] == o2[k],
    decreases i,
{
    if i > 0 {
        lemma_orders_agree(o1, o2, choices, city, i - 1);
    }
    let x = o1[i];
    let y = o2[i];
    if x != y {
        lemma_order_covers(o2, choices, city, x as int);
        let j = choose|j: int| 0 <= j < o2.len() && o2[j] == x;
        lemma_order_covers(o1, choices, city, y as int);
        let m = choose|m: int| 0 <= m < o1.len() && o1[m] == y;
        if j < i {
            assert(o1[j] == o2[j]);
        } else if m < i {
            assert(o1[m] == o2[m]);
        } else {
            assert(j > i && m > i);
            assert(closer_or_equal(choices[x as int].0, choices[y as int].0, city));
            assert(closer_or_equal(choices[y as int].0, choices[x as int].0, city));
            assert(choices[x as int].0 == choices[y as int].0);
            if x < y {
                assert(choices[x as int].0 != choices[y as int].0);
            } else {
                assert(choices[y as int].0 != choices[x as int].0);
            }
        }
    }
}

/// Where no two choices share a position, only one ordering lists them by distance, so the
/// selections that `possible_collections` offers are determined by the collect info alone.
pub proof fn lemma_by_distance_unique(
    o1: Seq<usize>,
    o2: Seq<usize>,
    choices: Seq<(Position, Vec<ResourcePile>)>,
    city: Position,
)
    requires
        by_distance(o1, choices, city),
        by_distance(o2, choices, city),
        distinct_positions(choices),
    ensures
        o1 == o2,
{
    if choices.len() > 0 {
        lemma_orders_agree(o1, o2, choices, city, choices.len() - 1);
    }
    assert(o1 =~= o2);
}


/// Of the candidates, the selection keeps only those worth collecting, each total at most
/// once, and for every total worth collecting one selection with that total.
pub proof fn lemma_select_distinct(cands: Seq<Seq<PositionCollection>>, city: Position, max_range2_tiles: u8)
    ensures
        forall|i: int|
            0 <= i < select_distinct(cands, city, max_range2_tiles).len() ==> worth_collecting(
                #[trigger] select_distinct(cands, city, max_range2_tiles)[i],
                city,
                max_range2_tiles,
            ) && cands.contains(select_distinct(cands, city, max_range2_tiles)[i]),
        forall|i: int, j: int|
            0 <= i < j < select_distinct(cands, city, max_range2_tiles).len() ==> collected(
                #[trigger] select_distinct(cands, city, max_range2_tiles)[i],
            ) != collected(#[trigger] select_distinct(cands, city, max_range2_tiles)[j]),
        forall|k: int|
            0 <= k < cands.len() && worth_collecting(#[trigger] cands[k], city, max_range2_tiles) ==> has_total(
                select_distinct(cands, city, max_range2_tiles),
                collected(cands[k]),
            ),
    decreases cands.len(),
{
    if cands.len() > 0 {
        let rest = cands.drop_last();
        lemma_select_distinct(rest, city, max_range2_tiles);
        let d = select_distinct(rest, city, max_range2_tiles);
        let c = cands.last();
        let sel = select_distinct(cands, city, max_range2_tiles);
        assert forall|i: int| 0 <= i < sel.len() implies worth_collecting(#[trigger] sel[i], city, max_range2_tiles)
            && cands.contains(sel[i]) by {
            if i < d.len() {
                assert(sel[i] == d[i]);
                let k = choose|k: int| 0 <= k < rest.len() && rest[k] == d[i];
                assert(cands[k] == d[i]);
            } else {
                assert(sel[i] == c);
                assert(cands[cands.len() - 1] == c);
            }
        }
        assert forall|k: int| 0 <= k < cands.len() && worth_collecting(#[trigger] cands[k], city, max_range2_tiles)
            implies has_total(sel, collected(cands[k])) by {
            if k < rest.len() {
                assert(rest[k] == cands[k]);
                let i = choose|i: int| 0 <= i < d.len() && collected(#[trigger] d[i]) == collected(rest[k]);
                assert(sel[i] == d[i]);
            } else if has_total(d, collected(c)) {
                let i = choose|i: int| 0 <= i < d.len() && collected(#[trigger] d[i]) == collected(c);
                assert(sel[i] == d[i]);
            } else {
                assert(sel[sel.len() - 1] == c);
            }
        }
    }
}

/// Every offered selection collects something and keeps to the limit on tiles two steps
/// away, where there is one; no two offered selections have the same total.
pub proof fn lemma_collection_options(info: CollectInfo, order: Seq<usize>)
    ensures
        forall|i: int|
            0 <= i < collection_options(info, order).len() ==> worth_collecting(
                #[trigger] collection_options(info, order)[i],
                info.city,
                info.max_range2_tiles,
            ),
        forall|i: int, j: int|
            0 <= i < j < collection_options(info, order).len() ==> collected(
                #[trigger] collection_options(info, order)[i],
            ) != collected(#[trigger] collection_options(info, order)[j]),
{
    let list = ordered_choices(info.choices@, order);
    let take = tiles_to_take(list, info.city, info.max_selection, info.max_range2_tiles);
    lemma_select_distinct(
        candidates(combinations_from(0, list.len() as int, take), list),
        info.city,
        info.max_range2_tiles,
    );
}

} // verus!
