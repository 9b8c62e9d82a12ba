use vstd::prelude::*;

use crate::advance::{
    Advance, AdvanceBuilder, AdvanceInfo, advance_at, built_from, opt_view, spec_advance_bonus,
    spec_advance_description, spec_advance_name, spec_unlocked_building,
};

pub mod agriculture;
pub mod construction;
pub mod seafaring;
pub mod education;
pub mod warfare;
pub mod spirituality;
pub mod economy;
pub mod culture;
pub mod science;
pub mod democracy;
pub mod autocracy;
pub mod theocracy;
use self::agriculture::agriculture;
use self::construction::construction;
use self::seafaring::seafaring;
use self::education::education;
use self::warfare::warfare;
use self::spirituality::spirituality;
use self::economy::economy;
use self::culture::culture;
use self::science::science;
use self::democracy::democracy;
use self::autocracy::autocracy;
use self::theocracy::theocracy;

verus! {

/// The twelve groups of advances.
#[derive(Clone, Copy, Debug, PartialEq, Eq, Structural)]
pub enum AdvanceGroup {
    Agriculture,
    Construction,
    Seafaring,
    Education,
    Warfare,
    Spirituality,
    Economy,
    Culture,
    Science,
    Democracy,
    Autocracy,
    Theocracy,
}

/// The group with a given number (0 to 11).
pub open spec fn group_at(i: int) -> AdvanceGroup {
    if i == 0 {
        AdvanceGroup::Agriculture
    } else if i == 1 {
        AdvanceGroup::Construction
    } else if i == 2 {
        AdvanceGroup::Seafaring
    } else if i == 3 {
        AdvanceGroup::Education
    } else if i == 4 {
        AdvanceGroup::Warfare
    } else if i == 5 {
        AdvanceGroup::Spirituality
    } else if i == 6 {
        AdvanceGroup::Economy
    } else if i == 7 {
        AdvanceGroup::Culture
    } else if i == 8 {
        AdvanceGroup::Science
    } else if i == 9 {
        AdvanceGroup::Democracy
    } else if i == 10 {
        AdvanceGroup::Autocracy
    } else {
        AdvanceGroup::Theocracy
    }
}

/// The name of a group.
pub open spec fn spec_group_name(g: AdvanceGroup) -> Seq<char> {
    match g {
        AdvanceGroup::Agriculture => "Agriculture"@,
        AdvanceGroup::Construction => "Construction"@,
        AdvanceGroup::Seafaring => "Seafaring"@,
        AdvanceGroup::Education => "Education"@,
        AdvanceGroup::Warfare => "Warfare"@,
        AdvanceGroup::Spirituality => "Spirituality"@,
        AdvanceGroup::Economy => "Economy"@,
        AdvanceGroup::Culture => "Culture"@,
        AdvanceGroup::Science => "Science"@,
        AdvanceGroup::Democracy => "Democracy"@,
        AdvanceGroup::Autocracy => "Autocracy"@,
        AdvanceGroup::Theocracy => "Theocracy"@,
    }
}

/// The government of the group with a given number: the last three groups are governments.
pub open spec fn group_government(i: int) -> Option<Seq<char>> {
    if i == 9 {
        Some("Democracy"@)
    } else if i == 10 {
        Some("Autocracy"@)
    } else if i == 11 {
        Some("Theocracy"@)
    } else {
        None
    }
}

impl AdvanceGroup {
    /// The name of the group.
    pub fn to_string(&self) -> (r: String)
        ensures
            r@ == spec_group_name(*self),
    {
        let s: &str = match self {
            AdvanceGroup::Agriculture => "Agriculture",
            AdvanceGroup::Construction => "Construction",
            AdvanceGroup::Seafaring => "Seafaring",
            AdvanceGroup::Education => "Education",
            AdvanceGroup::Warfare => "Warfare",
            AdvanceGroup::Spirituality => "Spirituality",
            AdvanceGroup::Economy => "Economy",
            AdvanceGroup::Culture => "Culture",
            AdvanceGroup::Science => "Science",
            AdvanceGroup::Democracy => "Democracy",
            AdvanceGroup::Autocracy => "Autocracy",
            AdvanceGroup::Theocracy => "Theocracy",
        };
        s.to_owned()
    }
}

/// A government: its name, the advance that leads to it, and the advance it requires.
pub struct GovernmentInfo {
    pub name: &'static str,
    pub leading: Advance,
    pub requirement: Advance,
}

/// The government whose leading advance is `first`: its name and required advance.
pub open spec fn spec_government_for(first: Advance) -> Option<(Seq<char>, Advance)> {
    match first {
        Advance::Voting => Some(("Democracy"@, Advance::Philosophy)),
        Advance::Nationalism => Some(("Autocracy"@, Advance::Draft)),
        Advance::Dogma => Some(("Theocracy"@, Advance::StateReligion)),
        _ => None,
    }
}

/// The government led by `first`, if any.
pub fn government_for(first: Advance) -> (r: Option<GovernmentInfo>)
    ensures
        match spec_government_for(first) {
            Some((n, req)) => r matches Some(g) && g.name@ == n && g.leading == first && g.requirement == req,
            None => r is None,
        },
{
    match first {
        Advance::Voting => Some(
            GovernmentInfo { name: "Democracy", leading: Advance::Voting, requirement: Advance::Philosophy },
        ),
        Advance::Nationalism => Some(
            GovernmentInfo { name: "Autocracy", leading: Advance::Nationalism, requirement: Advance::Draft },
        ),
        Advance::Dogma => Some(
            GovernmentInfo { name: "Theocracy", leading: Advance::Dogma, requirement: Advance::StateReligion },
        ),
        _ => None,
    }
}

/// The advances that lead to a government; they exclude each other.
pub open spec fn leading_advances() -> Seq<Advance> {
    seq![Advance::Voting, Advance::Nationalism, Advance::Dogma]
}

/// The description of a group.
#[derive(Clone, Debug)]
pub struct AdvanceGroupInfo {
    pub advance_group: AdvanceGroup,
    pub name: String,
    pub advances: Vec<AdvanceInfo>,
    pub government: Option<String>,
}

/// `info` is the `k`-th advance of a group that starts with `first`, built from `b`:
/// government groups mark all their advances with the government, the first one as leading,
/// which requires the government's requirement and excludes the other governments;
/// every later advance requires the first.
pub open spec fn group_entry_ok(info: AdvanceInfo, b: AdvanceBuilder, k: int, first: Advance) -> bool {
    &&& info.advance == b.advance
    &&& info.name@ == b.name@
    &&& info.description@ == b.description@
    &&& info.bonus == b.advance_bonus
    &&& info.unlocked_building == b.unlocked_building
    &&& match spec_government_for(first) {
        Some((g, req)) => {
            &&& opt_view(info.government) == Some(g)
            &&& info.leading_government == (k == 0)
            &&& info.required == if k > 0 { Some(first) } else { Some(req) }
            &&& info.contradicting@ == if k == 0 { leading_advances() } else { b.contradicting_advance@ }
        },
        None => {
            &&& opt_view(info.government) == opt_view(b.government)
            &&& info.leading_government == b.leading_government
            &&& info.required == if k > 0 { Some(first) } else { b.required_advance }
            &&& info.contradicting@ == b.contradicting_advance@
        },
    }
}

/// `info` is the `k`-th advance of a group of the game's content that starts with `first`.
pub open spec fn info_is_content(info: AdvanceInfo, k: int, first: Advance) -> bool {
    let a = info.advance;
    &&& info.name@ == spec_advance_name(a)
    &&& info.description@ == spec_advance_description(a)
    &&& info.bonus == spec_advance_bonus(a)
    &&& info.unlocked_building == spec_unlocked_building(a)
    &&& match spec_government_for(first) {
        Some((g, req)) => {
            &&& opt_view(info.government) == Some(g)
            &&& info.leading_government == (k == 0)
            &&& info.required == if k > 0 { Some(first) } else { Some(req) }
            &&& info.contradicting@ == if k == 0 { leading_advances() } else { Seq::<Advance>::empty() }
        },
        None => {
            &&& info.government is None
            &&& !info.leading_government
            &&& info.required == if k > 0 { Some(first) } else { None::<Advance> }
            &&& info.contradicting@.len() == 0
        },
    }
}

/// `g` is group number `i` of the game's content.
pub open spec fn group_is_content(g: AdvanceGroupInfo, i: int) -> bool {
    &&& g.advance_group == group_at(i)
    &&& g.name@ == spec_group_name(group_at(i))
    &&& opt_view(g.government) == group_government(i)
    &&& g.advances@.len() == 4
    &&& forall|k: int| 0 <= k < 4 ==> (#[trigger] g.advances@[k]).advance == advance_at(4 * i + k)
        && info_is_content(g.advances@[k], k, advance_at(4 * i))
}

/// A content builder placed in a group gives a content entry.
pub proof fn lemma_content_entry(info: AdvanceInfo, b: AdvanceBuilder, k: int, first: Advance)
    requires
        group_entry_ok(info, b, k, first),
        b.is_content_of(b.advance),
    ensures
        info_is_content(info, k, first),
{
    assert(b.contradicting_advance@ =~= Seq::<Advance>::empty());
}

/// Builds a group: the first advance decides whether the group is a government.
pub fn advance_group_builder(
    advance_group: AdvanceGroup,
    name: &str,
    advances: Vec<AdvanceBuilder>,
) -> (r: AdvanceGroupInfo)
    requires
        advances@.len() > 0,
        forall|k: int| 0 < k < advances@.len() ==> (#[trigger] advances@[k]).required_advance is None,
    ensures
        r.advance_group == advance_group,
        r.name@ == name@,
        opt_view(r.government) == match spec_government_for(advances@[0].advance) {
            Some((g, _)) => Some(g),
            None => None,
        },
        r.advances@.len() == advances@.len(),
        forall|k: int| 0 <= k < advances@.len() ==> group_entry_ok(
            #[trigger] r.advances@[k],
            advances@[k],
            k,
            advances@[0].advance,
        ),
{
    let ghost orig = advances@;
    let first = advances[0].advance;
    let government = government_for(first);
    let mut rest = advances;
    let mut a: Vec<AdvanceInfo> = Vec::new();
    let mut index: usize = 0;
    let n = rest.len();
    while index < n
        invariant
            n == orig.len(),
            0 <= index <= n,
            rest@ == orig.skip(index as int),
            a@.len() == index,
            first == orig[0].advance,
            forall|k: int| 0 < k < orig.len() ==> (#[trigger] orig[k]).required_advance is None,
            match spec_government_for(first) {
                Some((gn, req)) => government matches Some(g) && g.name@ == gn && g.leading == first
                    && g.requirement == req,
                None => government is None,
            },
            forall|k: int| 0 <= k < index ==> group_entry_ok(#[trigger] a@[k], orig[k], k, first),
        decreases n - index,
    {
        let builder = rest.remove(0);
        proof {
            assert(builder == orig[index as int]);
            assert(rest@ =~= orig.skip(index as int + 1));
        }
        let builder = match &government {
            Some(g) => builder.with_government(g.name, index == 0),
            None => builder,
        };
        let info = if index > 0 {
            builder.with_required_advance(first).build()
        } else {
            match &government {
                Some(g) => builder.with_required_advance(g.requirement).with_contradicting_advance(
                    &[Advance::Voting, Advance::Nationalism, Advance::Dogma],
                ).build(),
                None => builder.build(),
            }
        };
        a.push(info);
        index = index + 1;
    }
    let government_name = match government {
        Some(g) => Some(g.name.to_owned()),
        None => None,
    };
    AdvanceGroupInfo { advance_group, name: name.to_owned(), advances: a, government: government_name }
}

/// The twelve groups of the game, in order.
pub fn get_groups_uncached() -> (r: Vec<AdvanceGroupInfo>)
    ensures
        r@.len() == 12,
        forall|i: int| 0 <= i < 12 ==> group_is_content(#[trigger] r@[i], i),
{
    let v = vec![
        agriculture(),
        construction(),
        seafaring(),
        education(),
        warfare(),
        spirituality(),
        economy(),
        culture(),
        science(),
        democracy(),
        autocracy(),
        theocracy(),
    ];
    v
}

/// All advances of the game, group after group.
pub fn get_all_uncached() -> (r: Vec<AdvanceInfo>)
    ensures
        r@.len() == 48,
        forall|n: int| 0 <= n < 48 ==> (#[trigger] r@[n]).advance == advance_at(n) && info_is_content(
            r@[n],
            n % 4,
            advance_at(n - n % 4),
        ),
{
    let groups = get_groups_uncached();
    let mut r: Vec<AdvanceInfo> = Vec::new();
    let mut i: usize = 0;
    while i < 12
        invariant
            0 <= i <= 12,
            groups@.len() == 12,
            forall|j: int| 0 <= j < 12 ==> group_is_content(#[trigger] groups@[j], j),
            r@.len() == 4 * i,
            forall|n: int| 0 <= n < 4 * i ==> (#[trigger] r@[n]).advance == advance_at(n) && info_is_content(
                r@[n],
                n % 4,
                advance_at(n - n % 4),
            ),
        decreases 12 - i,
    {
        let g = &groups[i];
        assert(group_is_content(*g, i as int));
        let mut k: usize = 0;
        while k < g.advances.len()
            invariant
                0 <= k <= 4,
                0 <= i < 12,
                group_is_content(*g, i as int),
                r@.len() == 4 * i + k,
                forall|n: int| 0 <= n < 4 * i + k ==> (#[trigger] r@[n]).advance == advance_at(n) && info_is_content(
                    r@[n],
                    n % 4,
                    advance_at(n - n % 4),
                ),
            decreases 4 - k,
        {
            let info = g.advances[k].clone_info();
            proof {
                assert(g.advances@[k as int].advance == advance_at(4 * i + k));
                assert((4 * i + k) % 4 == k) by (nonlinear_arith)
                    requires
                        0 <= k < 4,
                        0 <= i,
                ;
            }
            r.push(info);
            k = k + 1;
        }
        i = i + 1;
    }
    r
}

/// The three government groups.
pub fn get_governments_uncached() -> (r: Vec<AdvanceGroupInfo>)
    ensures
        r@.len() == 3,
        forall|j: int| 0 <= j < 3 ==> group_is_content(#[trigger] r@[j], 9 + j),
{
    let groups = get_groups_uncached();
    let mut r: Vec<AdvanceGroupInfo> = Vec::new();
    let mut groups = groups;
    let mut i: usize = 0;
    while i < 12
        invariant
            0 <= i <= 12,
            groups@.len() == 12 - i,
            forall|j: int| 0 <= j < 12 - i ==> group_is_content(#[trigger] groups@[j], i + j),
            i <= 9 ==> r@.len() == 0,
            i > 9 ==> r@.len() == i - 9,
            forall|j: int| 0 <= j < r@.len() ==> group_is_content(#[trigger] r@[j], 9 + j),
        decreases 12 - i,
    {
        let ghost prev = groups@;
        let g = groups.remove(0);
        proof {
            assert(group_is_content(prev[0], i as int));
            assert forall|j: int| 0 <= j < 12 - (i + 1) implies group_is_content(#[trigger] groups@[j], i + 1 + j) by {
                assert(groups@[j] == prev[j + 1]);
                assert(group_is_content(prev[j + 1], i + (j + 1)));
            }
        }
        if g.government.is_some() {
            r.push(g);
        }
        i = i + 1;
    }
    r
}

} // verus!
