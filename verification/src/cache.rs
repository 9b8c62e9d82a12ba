use vstd::prelude::*;
use vstd::string::StringExecFns;

use crate::advance::{advance_at, advance_number, spec_unlocked_building, Advance, AdvanceInfo};
use crate::city_pieces::Building;
use crate::content::advances::{
    get_all_uncached, get_governments_uncached, get_groups_uncached, group_at, group_is_content,
    info_is_content, spec_group_name, AdvanceGroupInfo,
};

verus! {

/// The content of the game, built once and looked up by key.
pub struct Cache {
    pub all_advances: Vec<AdvanceInfo>,
    pub all_advance_groups: Vec<AdvanceGroupInfo>,
    pub all_governments: Vec<AdvanceGroupInfo>,
}

/// `c` holds the content of the game: the advances by number, the twelve groups and the three
/// governments in order.
pub open spec fn cache_wf(c: Cache) -> bool {
    &&& c.all_advances@.len() == 48
    &&& forall|n: int|
        0 <= n < 48 ==> (#[trigger] c.all_advances@[n]).advance == advance_at(n) && info_is_content(
            c.all_advances@[n],
            n % 4,
            advance_at(n - n % 4),
        )
    &&& c.all_advance_groups@.len() == 12
    &&& forall|i: int| 0 <= i < 12 ==> group_is_content(#[trigger] c.all_advance_groups@[i], i)
    &&& c.all_governments@.len() == 3
    &&& forall|j: int| 0 <= j < 3 ==> group_is_content(#[trigger] c.all_governments@[j], 9 + j)
}

/// The number of an advance gives back the advance.
pub proof fn lemma_advance_at_number(a: Advance)
    ensures
        advance_at(advance_number(a)) == a,
        0 <= advance_number(a) < 48,
{
}

/// The advance that unlocks building `b`: the last one, by number, among the first `n`.
pub open spec fn last_unlocking(b: Building, n: int) -> Option<Advance>
    decreases n,
{
    if n <= 0 {
        None
    } else if spec_unlocked_building(advance_at(n - 1)) == Some(b) {
        Some(advance_at(n - 1))
    } else {
        last_unlocking(b, n - 1)
    }
}

/// The advance that unlocks building `b` (the last one by number, where several do).
pub open spec fn spec_building_advance(b: Building) -> Option<Advance> {
    last_unlocking(b, 48)
}

/// The name of government number `j` (the groups from the tenth on).
pub open spec fn government_name(j: int) -> Seq<char> {
    spec_group_name(group_at(9 + j))
}

impl Cache {
    /// Builds the content of the game.
    pub fn new() -> (r: Cache)
        ensures
            cache_wf(r),
    {
        Cache {
            all_advances: get_all_uncached(),
            all_advance_groups: get_groups_uncached(),
            all_governments: get_governments_uncached(),
        }
    }

    /// The description of advance `a`.
    pub fn get_advance(&self, a: Advance) -> (r: &AdvanceInfo)
        requires
            cache_wf(*self),
        ensures
            r.advance == a,
            info_is_content(
                *r,
                advance_number(a) % 4,
                advance_at(advance_number(a) - advance_number(a) % 4),
            ),
    {
        proof {
            lemma_advance_at_number(a);
        }
        &self.all_advances[a.number() as usize]
    }

    /// The advance that unlocks building `b`.
    pub fn get_building_advance(&self, b: Building) -> (r: Advance)
        requires
            cache_wf(*self),
            spec_building_advance(b) is Some,
        ensures
            Some(r) == spec_building_advance(b),
    {
        let mut n: usize = 48;
        while n > 0
            invariant
                n <= 48,
                cache_wf(*self),
                last_unlocking(b, n as int) == spec_building_advance(b),
            decreases n,
        {
            let info = &self.all_advances[n - 1];
            if info.unlocked_building == Some(b) {
                return info.advance;
            }
            n = n - 1;
        }
        Advance::Farming
    }

    /// The group named `name`.
    pub fn get_advance_group(&self, name: &str) -> (r: &AdvanceGroupInfo)
        requires
            cache_wf(*self),
            exists|i: int| 0 <= i < 12 && spec_group_name(group_at(i)) == name@,
        ensures
            exists|i: int|
                0 <= i < 12 && spec_group_name(group_at(i)) == name@ && group_is_content(*r, i),
    {
        let key = <String as StringExecFns>::from_str(name);
        let mut i: usize = 0;
        while i < 12
            invariant
                i <= 12,
                cache_wf(*self),
                key@ == name@,
                forall|j: int| 0 <= j < i ==> spec_group_name(group_at(j)) != name@,
            decreases 12 - i,
        {
            if self.all_advance_groups[i].name == key {
                return &self.all_advance_groups[i];
            }
            i = i + 1;
        }
        &self.all_advance_groups[0]
    }

    /// The government named `name`.
    pub fn get_government(&self, name: &str) -> (r: &AdvanceGroupInfo)
        requires
            cache_wf(*self),
            exists|j: int| 0 <= j < 3 && government_name(j) == name@,
        ensures
            exists|j: int|
                0 <= j < 3 && government_name(j) == name@ && group_is_content(
                    *r,
                    9 + j,
                ),
    {
        let key = <String as StringExecFns>::from_str(name);
        let mut j: usize = 0;
        while j < 3
            invariant
                j <= 3,
                cache_wf(*self),
                key@ == name@,
                forall|k: int| 0 <= k < j ==> government_name(k) != name@,
            decreases 3 - j,
        {
            if self.all_governments[j].name == key {
                proof {
                    assert(group_is_content(self.all_governments@[j as int], 9 + j));
                    assert(government_name(j as int) == name@);
                }
                return &self.all_governments[j];
            }
            j = j + 1;
        }
        &self.all_governments[0]
    }
}

} // verus!
