//! A stable insertion sort that returns the order of the items.
use vstd::prelude::*;

verus! {

/// Items that can be compared under one of two orders, chosen by `mode`.
pub trait SortKey: Sized {
    /// How `self` compares with `other`: -1, 0 or 1.
    spec fn key_order(&self, other: &Self, mode: bool) -> int;

    /// Compares two items; swapping them negates the result.
    fn compare_keys(&self, other: &Self, mode: bool) -> (r: i8)
        ensures
            r == self.key_order(other, mode),
            other.key_order(self, mode) == -r,
    ;
}

/// Whether the item at index `i` comes before the one at `j`: it is smaller,
/// or equal and earlier in the input (the sort is stable).
pub open spec fn comes_before<T: SortKey>(s: Seq<T>, mode: bool, i: int, j: int) -> bool {
    let c = s[i].key_order(&s[j], mode);
    c < 0 || (c == 0 && i < j)
}

/// Whether `order` lists every index of `s` once, each before the next one.
pub open spec fn sorted_order<T: SortKey>(s: Seq<T>, mode: bool, order: Seq<usize>) -> bool {
    &&& order.len() == s.len()
    &&& order.no_duplicates()
    &&& forall|k: int| 0 <= k < order.len() ==> #[trigger] order[k] < s.len()
    &&& forall|k: int|
        0 <= k < order.len() - 1 ==> comes_before(s, mode, #[trigger] order[k] as int, order[k + 1] as int)
}

/// The indices of the items in sorted order: every index once, each item
/// before the next one, ties in input order.
pub fn stable_sort_order<T: SortKey>(items: &[T], mode: bool) -> (order: Vec<usize>)
    ensures
        sorted_order(items@, mode, order@),
{
    let ghost s = items@;
    let mut order: Vec<usize> = Vec::new();
    let mut i: usize = 0;
    while i < items.len()
        invariant
            i <= items@.len(),
            s == items@,
            order@.len() == i,
            order@.no_duplicates(),
            forall|k: int| 0 <= k < order@.len() ==> #[trigger] order@[k] < i,
            forall|k: int|
                0 <= k < order@.len() - 1 ==> comes_before(
                    s,
                    mode,
                    #[trigger] order@[k] as int,
                    order@[k + 1] as int,
                ),
        decreases items.len() - i,
    {
        let mut j: usize = order.len();
        loop
            invariant_except_break
                j <= order@.len(),
                i < items@.len(),
                s == items@,
                forall|k: int| 0 <= k < order@.len() ==> #[trigger] order@[k] < i,
                forall|k: int|
                    j <= k < order@.len() ==> s[i as int].key_order(&s[#[trigger] order@[k] as int], mode) < 0,
            ensures
                j <= order@.len(),
                forall|k: int|
                    j <= k < order@.len() ==> s[i as int].key_order(&s[#[trigger] order@[k] as int], mode) < 0,
                j > 0 ==> s[order@[j - 1] as int].key_order(&s[i as int], mode) <= 0,
            decreases j,
        {
            if j == 0 {
                break;
            }
            let c = items[i].compare_keys(&items[order[j - 1]], mode);
            if c >= 0 {
                break;
            }
            j = j - 1;
        }
        let ghost before = order@;
        order.insert(j, i);
        proof {
            assert(order@ =~= before.subrange(0, j as int).push(i).add(before.subrange(j as int, before.len() as int)));
            assert forall|k: int| 0 <= k < order@.len() implies #[trigger] order@[k] < i + 1 by {
                if k < j {
                    assert(order@[k] == before[k]);
                } else if k > j {
                    assert(order@[k] == before[k - 1]);
                }
            }
            assert(order@.no_duplicates()) by {
                assert forall|a: int, b: int| 0 <= a < b < order@.len() implies order@[a] != order@[b] by {
                    let va = if a < j { before[a] } else if a == j { i } else { before[a - 1] };
                    let vb = if b < j { before[b] } else if b == j { i } else { before[b - 1] };
                    assert(order@[a] == va);
                    assert(order@[b] == vb);
                    if a != j && b != j {
                        assert(va != vb);
                    } else if a == j {
                        assert(before[b - 1] < i);
                    } else {
                        assert(before[a] < i);
                    }
                }
            }
            assert forall|k: int| 0 <= k < order@.len() - 1 implies comes_before(
                s,
                mode,
                #[trigger] order@[k] as int,
                order@[k + 1] as int,
            ) by {
                if k + 1 < j {
                    assert(order@[k] == before[k]);
                    assert(order@[k + 1] == before[k + 1]);
                } else if k + 1 == j {
                    assert(order@[k] == before[k]);
                    assert(order@[k + 1] == i);
                    assert(before[k] < i);
                } else if k == j {
                    assert(order@[k] == i);
                    assert(order@[k + 1] == before[k]);
                } else {
                    assert(order@[k] == before[k - 1]);
                    assert(order@[k + 1] == before[k]);
                }
            }
        }
        i = i + 1;
    }
    order
}


} // verus!
