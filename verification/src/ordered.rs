use vstd::prelude::*;

use crate::advance::{advance_number, Advance};
use crate::wonder::Wonder;

verus! {

/// Values kept in order by their number.
pub trait SortKey: Copy + Sized {
    spec fn order(&self) -> int;

    fn order_exec(&self) -> (r: u8)
        ensures
            r == self.order(),
    ;

    /// Values with the same number are the same.
    proof fn lemma_order_injective(a: Self, b: Self)
        requires
            a.order() == b.order(),
        ensures
            a == b,
    ;
}

impl SortKey for u8 {
    open spec fn order(&self) -> int {
        *self as int
    }

    fn order_exec(&self) -> (r: u8) {
        *self
    }

    proof fn lemma_order_injective(a: u8, b: u8) {
    }
}

impl SortKey for Wonder {
    open spec fn order(&self) -> int {
        match *self {
            Wonder::Colosseum => 0,
            Wonder::GreatGardens => 1,
            Wonder::GreatLibrary => 2,
            Wonder::GreatLighthouse => 3,
            Wonder::GreatMausoleum => 4,
            Wonder::GreatStatue => 5,
            Wonder::GreatWall => 6,
            Wonder::Pyramids => 7,
        }
    }

    fn order_exec(&self) -> (r: u8) {
        match self {
            Wonder::Colosseum => 0,
            Wonder::GreatGardens => 1,
            Wonder::GreatLibrary => 2,
            Wonder::GreatLighthouse => 3,
            Wonder::GreatMausoleum => 4,
            Wonder::GreatStatue => 5,
            Wonder::GreatWall => 6,
            Wonder::Pyramids => 7,
        }
    }

    proof fn lemma_order_injective(a: Wonder, b: Wonder) {
    }
}

impl SortKey for Advance {
    open spec fn order(&self) -> int {
        advance_number(*self)
    }

    fn order_exec(&self) -> (r: u8) {
        self.number()
    }

    proof fn lemma_order_injective(a: Advance, b: Advance) {
    }
}

/// The values are in order.
pub open spec fn is_sorted<T: SortKey>(s: Seq<T>) -> bool {
    forall|i: int, j: int| 0 <= i < j < s.len() ==> #[trigger] s[i].order() <= #[trigger] s[j].order()
}

/// The values are in order, each once: a set kept in order.
pub open spec fn is_sorted_set<T: SortKey>(s: Seq<T>) -> bool {
    forall|i: int, j: int| 0 <= i < j < s.len() ==> #[trigger] s[i].order() < #[trigger] s[j].order()
}

/// Adds `x` to the ordered set `v`.
pub fn set_insert<T: SortKey>(v: &mut Vec<T>, x: T)
    requires
        is_sorted_set(old(v)@),
    ensures
        is_sorted_set(final(v)@),
        forall|y: T| #[trigger] final(v)@.contains(y) <==> old(v)@.contains(y) || y == x,
{
    let k = x.order_exec();
    let mut i: usize = 0;
    while i < v.len()
        invariant
            i <= v@.len(),
            *v == *old(v),
            k == x.order(),
            forall|j: int| 0 <= j < i ==> (#[trigger] v@[j]).order() < x.order(),
        ensures
            i <= v@.len(),
            *v == *old(v),
            forall|j: int| 0 <= j < i ==> (#[trigger] v@[j]).order() < x.order(),
            i < v@.len() ==> v@[i as int].order() >= x.order(),
        decreases v@.len() - i,
    {
        let o = v[i].order_exec();
        if o >= k {
            break;
        }
        i = i + 1;
    }
    if i < v.len() {
        let o = v[i].order_exec();
        if o == k {
            proof {
                T::lemma_order_injective(v@[i as int], x);
            }
            return;
        }
    }
    let ghost before = v@;
    v.insert(i, x);
    proof {
        assert forall|a: int, b: int| 0 <= a < b < v@.len() implies #[trigger] v@[a].order()
            < #[trigger] v@[b].order() by {
            if b < i {
                assert(v@[a] == before[a] && v@[b] == before[b]);
            } else if b == i {
                assert(v@[a] == before[a]);
            } else if a == i {
                assert(v@[b] == before[b - 1]);
                assert(before[i as int].order() <= before[b - 1].order());
            } else if a < i {
                assert(v@[a] == before[a] && v@[b] == before[b - 1]);
            } else {
                assert(v@[a] == before[a - 1] && v@[b] == before[b - 1]);
            }
        }
        assert forall|y: T| #[trigger] v@.contains(y) <==> before.contains(y) || y == x by {
            if v@.contains(y) {
                let j = choose|j: int| 0 <= j < v@.len() && v@[j] == y;
                if j < i {
                    assert(before[j] == y);
                } else if j > i {
                    assert(before[j - 1] == y);
                }
            }
            if before.contains(y) {
                let j = choose|j: int| 0 <= j < before.len() && before[j] == y;
                if j < i {
                    assert(v@[j] == y);
                } else {
                    assert(v@[j + 1] == y);
                }
            }
            if y == x {
                assert(v@[i as int] == x);
            }
        }
    }
}

/// Removes `x` from the ordered set `v`.
pub fn set_remove<T: SortKey>(v: &mut Vec<T>, x: T)
    requires
        is_sorted_set(old(v)@),
    ensures
        is_sorted_set(final(v)@),
        forall|y: T| #[trigger] final(v)@.contains(y) <==> old(v)@.contains(y) && y != x,
{
    let k = x.order_exec();
    let mut i: usize = 0;
    while i < v.len()
        invariant
            i <= v@.len(),
            *v == *old(v),
            k == x.order(),
            forall|j: int| 0 <= j < i ==> (#[trigger] v@[j]).order() != x.order(),
        ensures
            i <= v@.len(),
            *v == *old(v),
            forall|j: int| 0 <= j < i ==> (#[trigger] v@[j]).order() != x.order(),
            i < v@.len() ==> v@[i as int].order() == x.order(),
        decreases v@.len() - i,
    {
        let o = v[i].order_exec();
        if o == k {
            break;
        }
        i = i + 1;
    }
    if i == v.len() {
        proof {
            assert forall|y: T| #[trigger] v@.contains(y) implies y != x by {
                let j = choose|j: int| 0 <= j < v@.len() && v@[j] == y;
                assert(v@[j].order() != x.order());
            }
        }
        return;
    }
    proof {
        T::lemma_order_injective(v@[i as int], x);
    }
    let ghost before = v@;
    v.remove(i);
    proof {
        assert forall|a: int, b: int| 0 <= a < b < v@.len() implies #[trigger] v@[a].order()
            < #[trigger] v@[b].order() by {
            if b < i {
                assert(v@[a] == before[a] && v@[b] == before[b]);
            } else if a < i {
                assert(v@[a] == before[a] && v@[b] == before[b + 1]);
            } else {
                assert(v@[a] == before[a + 1] && v@[b] == before[b + 1]);
            }
        }
        assert forall|y: T| #[trigger] v@.contains(y) <==> before.contains(y) && y != x by {
            if v@.contains(y) {
                let j = choose|j: int| 0 <= j < v@.len() && v@[j] == y;
                if j < i {
                    assert(before[j] == y);
                    assert(before[j].order() < before[i as int].order());
                } else {
                    assert(before[j + 1] == y);
                    assert(before[i as int].order() < before[j + 1].order());
                }
            }
            if before.contains(y) && y != x {
                let j = choose|j: int| 0 <= j < before.len() && before[j] == y;
                if j < i {
                    assert(v@[j] == y);
                } else {
                    assert(j != i);
                    assert(v@[j - 1] == y);
                }
            }
        }
    }
}

} // verus!
