//! Putting work in order by size.
use vstd::prelude::*;

verus! {

/// `a` comes before `b`: its key is smaller, or the keys are the same and its
/// number is smaller.
pub open spec fn precedes(sizes: Seq<usize>, a: usize, b: usize) -> bool {
    sizes[a as int] < sizes[b as int] || sizes[a as int] == sizes[b as int] && a < b
}

/// Every element precedes the ones behind it.
pub open spec fn in_order(sizes: Seq<usize>, order: Seq<usize>) -> bool {
    forall|i: int, j: int|
        0 <= i < j < order.len() ==> precedes(sizes, #[trigger] order[i], #[trigger] order[j])
}

/// Exactly the numbers below `n` stand in `order`, each once.
pub open spec fn numbers_below(order: Seq<usize>, n: nat) -> bool {
    &&& order.len() == n
    &&& order.no_duplicates()
    &&& forall|i: int| 0 <= i < order.len() ==> #[trigger] order[i] < n
    &&& forall|k: usize| k < n ==> #[trigger] order.contains(k)
}

/// The numbers of `sizes` in the order of their sizes; equal sizes keep
/// their order.
pub fn order_by_size(sizes: &Vec<usize>) -> (order: Vec<usize>)
    ensures
        numbers_below(order@, sizes@.len()),
        in_order(sizes@, order@),
{
    let mut order: Vec<usize> = Vec::new();
    let mut k: usize = 0;
    while k < sizes.len()
        invariant
            k <= sizes.len(),
            numbers_below(order@, k as nat),
            in_order(sizes@, order@),
        decreases sizes.len() - k,
    {
        let mut at: usize = order.len();
        while at > 0 && sizes[order[at - 1]] > sizes[k]
            invariant
                k < sizes.len(),
                at <= order.len(),
                numbers_below(order@, k as nat),
                in_order(sizes@, order@),
                forall|i: int| at <= i < order.len() ==> sizes@[#[trigger] order@[i] as int] > sizes@[k as int],
            decreases at,
        {
            at -= 1;
        }
        let ghost before = order@;
        order.insert(at, k);
        proof {
            assert(order@ == before.insert(at as int, k));
            assert forall|i: int| 0 <= i < at implies precedes(sizes@, #[trigger] before[i], k) by {
                if i < at - 1 {
                    assert(precedes(sizes@, before[i], before[at - 1]));
                }
            }
            assert forall|i: int, j: int| 0 <= i < j < order@.len() implies precedes(
                sizes@,
                #[trigger] order@[i],
                #[trigger] order@[j],
            ) by {
                if i < at {
                    assert(order@[i] == before[i]);
                    if j < at {
                        assert(order@[j] == before[j]);
                    } else if j > at {
                        assert(order@[j] == before[j - 1]);
                    }
                } else {
                    assert(order@[j] == before[j - 1]);
                    if i > at {
                        assert(order@[i] == before[i - 1]);
                    }
                }
            }
            assert forall|n: usize| n < k + 1 implies #[trigger] order@.contains(n) by {
                if n < k {
                    assert(before.contains(n));
                    let i = choose|i: int| 0 <= i < before.len() && before[i] == n;
                    if i < at {
                        assert(order@[i] == n);
                    } else {
                        assert(order@[i + 1] == n);
                    }
                } else {
                    assert(order@[at as int] == k);
                }
            }
            assert forall|i: int, j: int|
                0 <= i < order@.len() && 0 <= j < order@.len() && i != j implies order@[i]
                != order@[j] by {
                let a = if i < at { i } else { i - 1 };
                let b = if j < at { j } else { j - 1 };
                if i != at {
                    assert(order@[i] == before[a]);
                }
                if j != at {
                    assert(order@[j] == before[b]);
                }
            }
        }
        k += 1;
    }
    order
}

/// Where each number stands in `order`.
pub open spec fn is_ranking(order: Seq<usize>, ranks: Seq<usize>) -> bool {
    &&& ranks.len() == order.len()
    &&& forall|k: int|
        0 <= k < ranks.len() ==> (#[trigger] ranks[k]) < order.len() && order[ranks[k] as int] == k
}

/// Finds where each number stands in `order`.
pub fn rank(order: &Vec<usize>) -> (ranks: Vec<usize>)
    requires
        numbers_below(order@, order@.len()),
    ensures
        is_ranking(order@, ranks@),
{
    let n: usize = order.len();
    let mut ranks: Vec<usize> = Vec::new();
    let mut k: usize = 0;
    while k < n
        invariant
            k <= n,
            ranks.len() == k,
        decreases n - k,
    {
        ranks.push(0);
        k += 1;
    }
    let mut i: usize = 0;
    while i < n
        invariant
            i <= n,
            n == order.len(),
            ranks.len() == n,
            numbers_below(order@, order@.len()),
            forall|j: int| 0 <= j < i ==> ranks@[#[trigger] order@[j] as int] == j,
        decreases n - i,
    {
        ranks.set(order[i], i);
        i += 1;
    }
    assert forall|k: int| 0 <= k < ranks@.len() implies (#[trigger] ranks@[k]) < order@.len()
        && order@[ranks@[k] as int] == k by {
        assert(order@.contains(k as usize));
        let j = choose|j: int| 0 <= j < order@.len() && order@[j] == k as usize;
        assert(ranks@[order@[j] as int] == j);
    }
    ranks
}

} // verus!
