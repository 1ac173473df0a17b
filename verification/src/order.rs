//! Sorting by numbers.
use vstd::prelude::*;

verus! {

/// `a` comes before `b` in a sort by keys that leaves equals in their order.
pub open spec fn comes_before(keys: Seq<i64>, a: usize, b: usize) -> bool {
    keys[a as int] < keys[b as int] || (keys[a as int] == keys[b as int] && a < b)
}

/// `order` lists the places of `keys`, each once, by rising keys, equals in their order.
pub open spec fn is_stable_order(order: Seq<usize>, keys: Seq<i64>) -> bool {
    &&& order.len() == keys.len()
    &&& forall|i: int| 0 <= i < order.len() ==> #[trigger] order[i] < keys.len()
    &&& forall|i: int, j: int|
        0 <= i < j < order.len() ==> comes_before(keys, #[trigger] order[i], #[trigger] order[j])
}

/// The places of `keys` by rising keys, equals in their order.
pub fn stable_order(keys: &Vec<i64>) -> (order: Vec<usize>)
    ensures
        is_stable_order(order@, keys@),
{
    let mut order: Vec<usize> = Vec::new();
    let n = keys.len();
    let mut i: usize = 0;
    while i < n
        invariant
            i <= n == keys@.len(),
            order@.len() == i,
            forall|k: int| 0 <= k < i ==> #[trigger] order@[k] < i,
            forall|j: int, k: int|
                0 <= j < k < i ==> comes_before(keys@, #[trigger] order@[j], #[trigger] order@[k]),
        decreases n - i,
    {
        let mut at: usize = i;
        while at > 0 && keys[order[at - 1]] > keys[i]
            invariant
                at <= i < n == keys@.len(),
                order@.len() == i,
                forall|k: int| 0 <= k < i ==> #[trigger] order@[k] < i,
                forall|k: int| at <= k < i ==> keys@[#[trigger] order@[k] as int] > keys@[i as int],
            decreases at,
        {
            at -= 1;
        }
        let ghost before = order@;
        order.insert(at, i);
        proof {
            assert forall|j: int, k: int| 0 <= j < k < i + 1 implies comes_before(
                keys@,
                #[trigger] order@[j],
                #[trigger] order@[k],
            ) by {
                if k < at {
                    assert(comes_before(keys@, before[j], before[k]));
                } else if k == at {
                    assert(order@[j] == before[j]);
                    if j < at - 1 {
                        assert(comes_before(keys@, before[j], before[at - 1]));
                    }
                } else if j < at {
                    assert(comes_before(keys@, before[j], before[k - 1]));
                } else if j == at {
                    assert(order@[k] == before[k - 1]);
                } else {
                    assert(comes_before(keys@, before[j - 1], before[k - 1]));
                }
            }
            assert forall|k: int| 0 <= k < i + 1 implies #[trigger] order@[k] < i + 1 by {
                if k < at {
                    assert(order@[k] == before[k]);
                } else if k > at {
                    assert(order@[k] == before[k - 1]);
                }
            }
        }
        i += 1;
    }
    order
}

/// Two orders by the same keys are one.
pub proof fn stable_order_is_unique(a: Seq<usize>, b: Seq<usize>, keys: Seq<i64>)
    requires
        is_stable_order(a, keys),
        is_stable_order(b, keys),
    ensures
        a == b,
{
    assert forall|i: int| 0 <= i < a.len() implies a[i] == b[i] by {
        lemma_same_until(a, b, keys, i + 1);
    }
    assert(a =~= b);
}

proof fn lemma_same_until(a: Seq<usize>, b: Seq<usize>, keys: Seq<i64>, n: int)
    requires
        is_stable_order(a, keys),
        is_stable_order(b, keys),
        0 <= n <= a.len(),
    ensures
        forall|i: int| 0 <= i < n ==> #[trigger] a[i] == b[i],
    decreases n,
{
    if n > 0 {
        lemma_same_until(a, b, keys, n - 1);
        let m = n - 1;
        lemma_all_listed(a, keys, b[m]);
        lemma_all_listed(b, keys, a[m]);
        let i = choose|i: int| 0 <= i < a.len() && a[i] == b[m];
        let j = choose|j: int| 0 <= j < b.len() && b[j] == a[m];
        if a[m] != b[m] {
            if i < m {
                assert(b[i] == b[m]);
                assert(comes_before(keys, b[i], b[m]));
            }
            if j < m {
                assert(a[j] == a[m]);
                assert(comes_before(keys, a[j], a[m]));
            }
            assert(comes_before(keys, a[m], a[i]));
            assert(comes_before(keys, b[m], b[j]));
        }
    }
}

/// Every place is listed.
pub proof fn lemma_all_listed(order: Seq<usize>, keys: Seq<i64>, p: usize)
    requires
        is_stable_order(order, keys),
        p < keys.len(),
    ensures
        exists|i: int| 0 <= i < order.len() && order[i] == p,
{
    let places = order.map_values(|i: usize| i as int);
    assert(places.no_duplicates()) by {
        assert forall|i: int, j: int| 0 <= i < places.len() && 0 <= j < places.len() && i
            != j implies places[i] != places[j] by {
            if i < j {
                assert(comes_before(keys, order[i], order[j]));
            } else {
                assert(comes_before(keys, order[j], order[i]));
            }
        }
    }
    let all = vstd::set_lib::set_int_range(0, keys.len() as int);
    vstd::set_lib::lemma_int_range(0, keys.len() as int);
    places.unique_seq_to_set();
    assert(places.to_set().subset_of(all)) by {
        assert forall|x: int| places.to_set().contains(x) implies all.contains(x) by {
            let i = choose|i: int| 0 <= i < places.len() && places[i] == x;
            assert(order[i] < keys.len());
        }
    }
    vstd::set_lib::lemma_subset_equality(places.to_set(), all);
    assert(all.contains(p as int));
    assert(places.to_set().contains(p as int));
    let i = choose|i: int| 0 <= i < places.len() && places[i] == p as int;
    assert(order[i] == p);
}

} // verus!
