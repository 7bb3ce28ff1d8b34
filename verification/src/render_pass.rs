use vstd::prelude::*;
use vstd::relations::{sorted_by, total_ordering};

verus! {

// ---------------------------------------------------------------------------
// The order in which render passes are drawn
// ---------------------------------------------------------------------------

/// Pass `a` comes before pass `b`: its order number is lower, or the numbers are
/// equal and it was listed first
pub open spec fn draws_before(orders: Seq<usize>, a: usize, b: usize) -> bool {
    orders[a as int] < orders[b as int] || (orders[a as int] == orders[b as int] && a < b)
}

/// `draw` lists every pass of `orders` once, by their order numbers, passes with
/// equal numbers in the order they were listed
pub open spec fn is_draw_order(orders: Seq<usize>, draw: Seq<usize>) -> bool {
    &&& draw.len() == orders.len()
    &&& forall|i: int| 0 <= i < draw.len() ==> #[trigger] draw[i] < orders.len()
    &&& forall|i: int, j: int|
        0 <= i < j < draw.len() ==> draws_before(orders, #[trigger] draw[i], #[trigger] draw[j])
}

/// Two passes never both come before each other, so a pass is listed only once
pub proof fn lemma_draw_order_distinct(orders: Seq<usize>, draw: Seq<usize>, i: int, j: int)
    requires
        is_draw_order(orders, draw),
        0 <= i < j < draw.len(),
    ensures
        draw[i] != draw[j],
{
}

/// Pass `a` is `b` or comes before it
pub open spec fn draws_no_later(orders: Seq<usize>, a: usize, b: usize) -> bool {
    a == b || draws_before(orders, a, b)
}

/// The passes below `n`
pub open spec fn passes_below(n: nat) -> Set<usize> {
    Set::new(|x: usize| x < n)
}

proof fn lemma_passes_below(n: nat)
    ensures
        passes_below(n).finite(),
        n <= usize::MAX + 1 ==> passes_below(n).len() == n,
    decreases n,
{
    if n == 0 {
        assert(passes_below(0) =~= Set::<usize>::empty());
    } else {
        lemma_passes_below((n - 1) as nat);
        if n <= usize::MAX + 1 {
            let last = (n - 1) as usize;
            assert(passes_below((n - 1) as nat).insert(last) =~= passes_below(n));
        } else {
            assert(passes_below((n - 1) as nat) =~= passes_below(n));
        }
    }
}

/// A draw order lists each pass exactly once
proof fn lemma_draw_order_covers(orders: Seq<usize>, draw: Seq<usize>)
    requires
        is_draw_order(orders, draw),
    ensures
        draw.to_set() == passes_below(orders.len()),
        draw.no_duplicates(),
{
    assert forall|i: int, j: int| 0 <= i < draw.len() && 0 <= j < draw.len() && i != j implies draw[i]
        != draw[j] by {
        if i < j {
            lemma_draw_order_distinct(orders, draw, i, j);
        } else {
            lemma_draw_order_distinct(orders, draw, j, i);
        }
    }
    draw.unique_seq_to_set();
    vstd::seq_lib::seq_to_set_is_finite(draw);
    let n = orders.len();
    lemma_passes_below(n);
    assert(draw.to_set().subset_of(passes_below(n))) by {
        assert forall|x: usize| draw.to_set().contains(x) implies x < n by {
            let i = choose|i: int| 0 <= i < draw.len() && draw[i] == x;
        }
    }
    if n > usize::MAX + 1 {
        let m = (usize::MAX + 1) as nat;
        lemma_passes_below(m);
        assert(passes_below(n) =~= passes_below(m));
        vstd::set_lib::lemma_len_subset(draw.to_set(), passes_below(m));
        assert(false);
    }
    vstd::set_lib::lemma_subset_equality(draw.to_set(), passes_below(n));
}

/// The order numbers determine the draw order: two draw orders of the same passes
/// are the same
pub proof fn lemma_draw_order_unique(orders: Seq<usize>, d1: Seq<usize>, d2: Seq<usize>)
    requires
        is_draw_order(orders, d1),
        is_draw_order(orders, d2),
    ensures
        d1 == d2,
{
    broadcast use vstd::seq_lib::group_to_multiset_ensures;

    let leq = |a: usize, b: usize| draws_no_later(orders, a, b);
    lemma_draw_order_covers(orders, d1);
    lemma_draw_order_covers(orders, d2);
    d1.lemma_multiset_has_no_duplicates();
    d2.lemma_multiset_has_no_duplicates();
    assert forall|x: usize| d1.to_multiset().count(x) == d2.to_multiset().count(x) by {
        assert(d1.to_set().contains(x) == d2.to_set().contains(x));
        if d1.contains(x) {
            assert(d1.to_set().contains(x));
            assert(d2.contains(x));
        } else {
            assert(!d1.to_set().contains(x));
            assert(!d2.contains(x));
        }
    }
    assert(d1.to_multiset() =~= d2.to_multiset());
    assert(sorted_by(d1, leq));
    assert(sorted_by(d2, leq));
    assert(total_ordering(leq));
    vstd::seq_lib::lemma_sorted_unique(d1, d2, leq);
}

/// The order in which the passes with order numbers `orders` are drawn
pub fn pass_draw_order(orders: &Vec<usize>) -> (res: Vec<usize>)
    ensures
        is_draw_order(orders@, res@),
{
    let mut draw: Vec<usize> = Vec::new();
    let mut k: usize = 0;
    while k < orders.len()
        invariant
            k <= orders.len(),
            draw.len() == k,
            forall|i: int| 0 <= i < draw.len() ==> #[trigger] draw[i] < k,
            forall|i: int, j: int|
                0 <= i < j < draw.len() ==> draws_before(
                    orders@,
                    #[trigger] draw[i],
                    #[trigger] draw[j],
                ),
        decreases orders.len() - k,
    {
        let mut p: usize = draw.len();
        while p > 0 && orders[draw[p - 1]] > orders[k]
            invariant
                p <= draw.len(),
                draw.len() == k,
                k < orders.len(),
                forall|i: int| 0 <= i < draw.len() ==> #[trigger] draw[i] < k,
                forall|q: int| p <= q < draw.len() ==> orders[#[trigger] draw[q] as int] > orders[k as int],
            decreases p,
        {
            p = p - 1;
        }
        let ghost before = draw@;
        proof {
            if p > 0 {
                assert forall|q: int| 0 <= q < p implies orders[#[trigger] before[q] as int]
                    <= orders[k as int] by {
                    if q < p - 1 {
                        assert(draws_before(orders@, before[q], before[p - 1]));
                    }
                }
            }
        }
        draw.insert(p, k);
        proof {
            assert forall|i: int| 0 <= i < draw.len() implies #[trigger] draw[i] < k + 1 by {
                if i < p {
                    assert(draw[i] == before[i]);
                } else if i > p {
                    assert(draw[i] == before[i - 1]);
                }
            }
            assert forall|i: int, j: int| 0 <= i < j < draw.len() implies draws_before(
                orders@,
                #[trigger] draw[i],
                #[trigger] draw[j],
            ) by {
                if j < p {
                    assert(draw[i] == before[i] && draw[j] == before[j]);
                } else if j == p {
                    assert(draw[i] == before[i]);
                    assert(before[i] < k);
                } else if i < p {
                    assert(draw[i] == before[i] && draw[j] == before[j - 1]);
                    assert(draws_before(orders@, before[i], before[j - 1]));
                } else if i == p {
                    assert(draw[j] == before[j - 1]);
                } else {
                    assert(draw[i] == before[i - 1] && draw[j] == before[j - 1]);
                    assert(draws_before(orders@, before[i - 1], before[j - 1]));
                }
            }
        }
        k = k + 1;
    }
    draw
}

/// One frame's render passes: all of them in draw order, and how many of them are
/// drawn. Drawing goes through the passes in order and stops at the first one that
/// is not ready (its colour attachments' views or its pipeline are not made yet).
pub fn passes_to_draw(orders: &Vec<usize>, ready: &Vec<bool>) -> (res: (Vec<usize>, usize))
    requires
        ready.len() == orders.len(),
    ensures
        is_draw_order(orders@, res.0@),
        res.1 <= orders.len(),
        forall|i: int| 0 <= i < res.1 ==> ready[#[trigger] res.0@[i] as int],
        res.1 < orders.len() ==> !ready[res.0@[res.1 as int] as int],
{
    let draw = pass_draw_order(orders);
    let mut n: usize = 0;
    while n < draw.len() && ready[draw[n]]
        invariant
            is_draw_order(orders@, draw@),
            ready.len() == orders.len(),
            n <= draw.len(),
            forall|i: int| 0 <= i < n ==> ready[#[trigger] draw@[i] as int],
        decreases draw.len() - n,
    {
        n = n + 1;
    }
    (draw, n)
}

} // verus!
