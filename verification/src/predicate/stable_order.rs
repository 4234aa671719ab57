//! Stable sorting of positions.

use vstd::prelude::*;
use crate::json::binary64::NumberOrder;

verus! {

/// Positions that can be ordered against each other.
pub trait Positions {
    /// The number of positions.
    spec fn size(&self) -> nat;

    /// How two positions compare.
    spec fn order(&self, i: int, j: int) -> NumberOrder;

    /// Whether the comparison of two positions was seen.
    spec fn seen(&self, i: int, j: int) -> bool;

    /// Compares two positions.
    fn compare_at(&self, i: usize, j: usize) -> (r: NumberOrder)
        requires
            i < self.size(),
            j < self.size(),
        ensures
            r == self.order(i as int, j as int),
            self.seen(i as int, j as int),
    ;
}

/// The comparison is a total order up to ties.
pub open spec fn is_total<A>(order: spec_fn(A, A) -> NumberOrder) -> bool {
    &&& forall|a: A, b: A|
        (#[trigger] order(a, b) == NumberOrder::Less) == (order(b, a) == NumberOrder::Greater)
    &&& forall|a: A, b: A|
        (#[trigger] order(a, b) == NumberOrder::Equal) == (order(b, a) == NumberOrder::Equal)
    &&& forall|a: A, b: A, c: A|
        #[trigger] order(a, b) != NumberOrder::Greater && #[trigger] order(b, c)
            != NumberOrder::Greater ==> order(a, c) != NumberOrder::Greater
}

/// The position `i` comes before `j`: it is less, or ties and is the earlier one.
pub open spec fn comes_before<P: Positions>(p: &P, i: int, j: int) -> bool {
    p.order(i, j) == NumberOrder::Less || (p.order(i, j) == NumberOrder::Equal && i < j)
}

/// The two positions were compared, one way or the other.
pub open spec fn linked<P: Positions>(p: &P, i: int, j: int) -> bool {
    p.seen(i, j) || p.seen(j, i)
}

/// `order` lists the positions from `low` to `high`, each once, from the first to
/// the last; neighbours were compared.
pub open spec fn lists_in_order<P: Positions>(p: &P, order: Seq<usize>, low: int, high: int) -> bool {
    &&& order.len() == high - low
    &&& forall|i: int| 0 <= i < order.len() ==> low <= #[trigger] order[i] < high
    &&& forall|k: usize| low <= k < high ==> #[trigger] order.contains(k)
    &&& forall|i: int, j: int|
        0 <= i < j < order.len() ==> comes_before(
            p,
            #[trigger] order[i] as int,
            #[trigger] order[j] as int,
        )
    &&& forall|i: int, j: int|
        0 <= i && j == i + 1 && j < order.len() ==> linked(
            p,
            #[trigger] order[i] as int,
            #[trigger] order[j] as int,
        )
}

/// Coming before is transitive.
proof fn lemma_before_is_transitive<P: Positions>(p: &P, i: int, j: int, k: int)
    requires
        is_total(|a: int, b: int| p.order(a, b)),
        comes_before(p, i, j),
        comes_before(p, j, k),
    ensures
        comes_before(p, i, k),
{
    let order = |a: int, b: int| p.order(a, b);
    assert(order(i, j) == p.order(i, j));
    assert(order(j, k) == p.order(j, k));
    assert(order(i, k) == p.order(i, k));
    assert(order(k, i) == p.order(k, i));
    assert(order(j, i) == p.order(j, i));
    assert(order(k, j) == p.order(k, j));
    if p.order(i, k) == NumberOrder::Equal {
        assert(order(k, i) != NumberOrder::Greater);
        assert(order(j, i) != NumberOrder::Greater);
        assert(order(k, j) != NumberOrder::Greater);
    }
}

/// Of two different positions one comes before the other.
proof fn lemma_one_comes_before<P: Positions>(p: &P, i: int, j: int)
    requires
        is_total(|a: int, b: int| p.order(a, b)),
        i != j,
    ensures
        comes_before(p, i, j) != comes_before(p, j, i),
{
    let order = |a: int, b: int| p.order(a, b);
    assert(order(i, j) == p.order(i, j));
    assert(order(j, i) == p.order(j, i));
}

/// What was taken so far from two ordered halves.
spec fn is_merged<P: Positions>(
    p: &P,
    a: Seq<usize>,
    b: Seq<usize>,
    i: int,
    j: int,
    out: Seq<usize>,
) -> bool {
    &&& 0 <= i <= a.len()
    &&& 0 <= j <= b.len()
    &&& out.len() == i + j
    &&& forall|k: int| 0 <= k < i ==> out.contains(#[trigger] a[k])
    &&& forall|k: int| 0 <= k < j ==> out.contains(#[trigger] b[k])
    &&& forall|k: int|
        0 <= k < out.len() ==> (#[trigger] out[k]) < p.size() && (a.contains(out[k]) || b.contains(
            out[k],
        ))
    &&& forall|k: int, l: int|
        0 <= k < l < out.len() ==> comes_before(
            p,
            #[trigger] out[k] as int,
            #[trigger] out[l] as int,
        )
    &&& forall|k: int, l: int|
        0 <= k < out.len() && i <= l < a.len() ==> comes_before(
            p,
            #[trigger] out[k] as int,
            #[trigger] a[l] as int,
        )
    &&& forall|k: int, l: int|
        0 <= k < out.len() && j <= l < b.len() ==> comes_before(
            p,
            #[trigger] out[k] as int,
            #[trigger] b[l] as int,
        )
    &&& forall|k: int, l: int|
        0 <= k && l == k + 1 && l < out.len() ==> linked(
            p,
            #[trigger] out[k] as int,
            #[trigger] out[l] as int,
        )
    &&& out.len() > 0 && i < a.len() ==> linked(p, out[out.len() - 1] as int, a[i] as int)
    &&& out.len() > 0 && j < b.len() ==> linked(p, out[out.len() - 1] as int, b[j] as int)
}

/// Merges two ordered halves.
fn merge<P: Positions>(
    p: &P,
    a: &Vec<usize>,
    b: &Vec<usize>,
    Ghost(low): Ghost<int>,
    Ghost(mid): Ghost<int>,
    Ghost(high): Ghost<int>,
) -> (r: Vec<usize>)
    requires
        is_total(|x: int, y: int| p.order(x, y)),
        0 <= low <= mid <= high <= p.size(),
        high <= usize::MAX,
        lists_in_order(p, a@, low, mid),
        lists_in_order(p, b@, mid, high),
    ensures
        lists_in_order(p, r@, low, high),
{
    let mut out: Vec<usize> = Vec::new();
    let mut i: usize = 0;
    let mut j: usize = 0;
    while i < a.len() || j < b.len()
        invariant
            is_total(|x: int, y: int| p.order(x, y)),
            0 <= low <= mid <= high <= p.size(),
            lists_in_order(p, a@, low, mid),
            lists_in_order(p, b@, mid, high),
            is_merged(p, a@, b@, i as int, j as int, out@),
        decreases a@.len() - i + b@.len() - j,
    {
        let from_a = if i >= a.len() {
            false
        } else if j >= b.len() {
            true
        } else {
            let x = a[i];
            let y = b[j];
            proof {
                lemma_one_comes_before(p, x as int, y as int);
            }
            let order = p.compare_at(x, y);
            match order {
                NumberOrder::Greater => false,
                _ => true,
            }
        };
        let ghost before = out@;
        if from_a {
            let next = a[i];
            assert forall|l: int| j <= l < b@.len() implies comes_before(
                p,
                next as int,
                #[trigger] b@[l] as int,
            ) by {
                if l > j {
                    lemma_before_is_transitive(p, next as int, b@[j as int] as int, b@[l] as int);
                }
            }
            out.push(next);
            assert(out@.drop_last() =~= before);
            assert(a@.contains(next));
            assert forall|k: int| 0 <= k < i + 1 implies out@.contains(#[trigger] a@[k]) by {
                if k < i {
                    assert(before.contains(a@[k]));
                    let w = choose|w: int| 0 <= w < before.len() && before[w] == a@[k];
                    assert(out@[w] == a@[k]);
                } else {
                    assert(out@[before.len() as int] == a@[k]);
                }
            }
            assert forall|k: int| 0 <= k < j implies out@.contains(#[trigger] b@[k]) by {
                assert(before.contains(b@[k]));
                let w = choose|w: int| 0 <= w < before.len() && before[w] == b@[k];
                assert(out@[w] == b@[k]);
            }
            i += 1;
        } else {
            let next = b[j];
            assert forall|l: int| i <= l < a@.len() implies comes_before(
                p,
                next as int,
                #[trigger] a@[l] as int,
            ) by {
                if l > i {
                    lemma_before_is_transitive(p, next as int, a@[i as int] as int, a@[l] as int);
                }
            }
            out.push(next);
            assert(out@.drop_last() =~= before);
            assert(b@.contains(next));
            assert forall|k: int| 0 <= k < i implies out@.contains(#[trigger] a@[k]) by {
                assert(before.contains(a@[k]));
                let w = choose|w: int| 0 <= w < before.len() && before[w] == a@[k];
                assert(out@[w] == a@[k]);
            }
            assert forall|k: int| 0 <= k < j + 1 implies out@.contains(#[trigger] b@[k]) by {
                if k < j {
                    assert(before.contains(b@[k]));
                    let w = choose|w: int| 0 <= w < before.len() && before[w] == b@[k];
                    assert(out@[w] == b@[k]);
                } else {
                    assert(out@[before.len() as int] == b@[k]);
                }
            }
            j += 1;
        }
    }
    assert forall|k: usize| low <= k < high implies #[trigger] out@.contains(k) by {
        if k < mid {
            assert(a@.contains(k));
            let w = choose|w: int| 0 <= w < a@.len() && a@[w] == k;
            assert(out@.contains(a@[w]));
        } else {
            assert(b@.contains(k));
            let w = choose|w: int| 0 <= w < b@.len() && b@[w] == k;
            assert(out@.contains(b@[w]));
        }
    }
    out
}

/// Orders the positions from `low` to `high`.
fn order_range<P: Positions>(p: &P, low: usize, high: usize) -> (r: Vec<usize>)
    requires
        is_total(|x: int, y: int| p.order(x, y)),
        low <= high <= p.size(),
    ensures
        lists_in_order(p, r@, low as int, high as int),
    decreases high - low,
{
    if high - low <= 1 {
        let mut r: Vec<usize> = Vec::new();
        if low < high {
            r.push(low);
            assert(r@[0] == low);
        }
        return r;
    }
    let mid = low + (high - low) / 2;
    let a = order_range(p, low, mid);
    let b = order_range(p, mid, high);
    merge(p, &a, &b, Ghost(low as int), Ghost(mid as int), Ghost(high as int))
}

/// Orders all positions; ties keep the order they have.
pub fn stable_order<P: Positions>(p: &P, size: usize) -> (r: Vec<usize>)
    requires
        is_total(|x: int, y: int| p.order(x, y)),
        size == p.size(),
    ensures
        lists_in_order(p, r@, 0, size as int),
{
    order_range(p, 0, size)
}

} // verus!
