//! The order in which objects are drawn.
use vstd::prelude::*;

verus! {

/// Where a key goes among the sorted ones: before the first greater one.
pub open spec fn place(order: Seq<int>, keys: Seq<i64>, key: i64, from: int) -> int
    decreases order.len() - from,
{
    if from < 0 || from >= order.len() {
        order.len() as int
    } else if keys[order[from]] > key {
        from
    } else {
        place(order, keys, key, from + 1)
    }
}

/// The positions of the first `n` keys, sorted by key; equal keys keep their order.
pub open spec fn sorted_positions(keys: Seq<i64>, n: int) -> Seq<int>
    decreases n,
{
    if n <= 0 {
        Seq::empty()
    } else {
        let before = sorted_positions(keys, n - 1);
        before.insert(place(before, keys, keys[n - 1], 0), n - 1)
    }
}

/// The order of drawing: the document's, or the one that the sort keys give.
pub open spec fn draw_order(keys: Seq<i64>, custom: bool) -> Seq<int> {
    if custom {
        sorted_positions(keys, keys.len() as int)
    } else {
        Seq::new(keys.len(), |i: int| i)
    }
}

/// The numbers that a sequence of positions holds.
pub open spec fn ints(s: Seq<usize>) -> Seq<int> {
    s.map_values(|x: usize| x as int)
}

proof fn lemma_place_bounds(order: Seq<int>, keys: Seq<i64>, key: i64, from: int)
    requires
        0 <= from <= order.len(),
    ensures
        from <= place(order, keys, key, from) <= order.len(),
        forall|i: int|
            from <= i < place(order, keys, key, from) ==> keys[#[trigger] order[i]] <= key,
        place(order, keys, key, from) < order.len() ==> keys[order[place(order, keys, key, from)]]
            > key,
    decreases order.len() - from,
{
    if from < order.len() && keys[order[from]] <= key {
        lemma_place_bounds(order, keys, key, from + 1);
    }
}

/// `a` comes before `b`: its key is less, or it is the same and `a` stands first.
pub open spec fn before(keys: Seq<i64>, a: int, b: int) -> bool {
    keys[a] < keys[b] || (keys[a] == keys[b] && a < b)
}

/// Sorting loses and invents nothing: each of the first `n` positions stands
/// in the result once, and every pair of them stands in the order of their
/// keys, or in their own order where the keys are equal.
pub proof fn law_sorted_positions(keys: Seq<i64>, n: int)
    requires
        0 <= n <= keys.len(),
    ensures
        sorted_positions(keys, n).len() == n,
        forall|i: int|
            0 <= i < n ==> 0 <= #[trigger] sorted_positions(keys, n)[i] < n,
        forall|i: int, j: int|
            0 <= i < j < n ==> before(
                keys,
                #[trigger] sorted_positions(keys, n)[i],
                #[trigger] sorted_positions(keys, n)[j],
            ),
    decreases n,
{
    if n > 0 {
        law_sorted_positions(keys, n - 1);
        let old_order = sorted_positions(keys, n - 1);
        let p = place(old_order, keys, keys[n - 1], 0);
        lemma_place_bounds(old_order, keys, keys[n - 1], 0);
        let now = sorted_positions(keys, n);
        assert(now == old_order.insert(p, n - 1));
        assert forall|i: int| 0 <= i < n implies 0 <= #[trigger] now[i] < n by {
            if i < p {
                assert(now[i] == old_order[i]);
            } else if i > p {
                assert(now[i] == old_order[i - 1]);
            }
        }
        assert forall|i: int, j: int| 0 <= i < j < n implies before(
            keys,
            #[trigger] now[i],
            #[trigger] now[j],
        ) by {
            let a = if i < p {
                i
            } else {
                i - 1
            };
            let b = if j < p {
                j
            } else {
                j - 1
            };
            if i == p {
                assert(now[j] == old_order[j - 1]);
                if j - 1 > p {
                    assert(before(keys, old_order[p], old_order[j - 1]));
                }
            } else if j == p {
                assert(now[i] == old_order[i]);
            } else {
                assert(now[i] == old_order[a]);
                assert(now[j] == old_order[b]);
            }
        }
    }
}

/// The order of drawing of objects with the given sort keys.
pub fn draw_positions(keys: &Vec<i64>, custom: bool) -> (r: Vec<usize>)
    ensures
        ints(r@) == draw_order(keys@, custom),
        forall|i: int| 0 <= i < r@.len() ==> (#[trigger] r@[i]) < keys@.len(),
        r@.len() == keys@.len(),
{
    let mut out: Vec<usize> = Vec::new();
    let mut n: usize = 0;
    assert(ints(out@) =~= sorted_positions(keys@, 0));
    while n < keys.len()
        invariant
            n <= keys@.len(),
            out@.len() == n,
            custom ==> ints(out@) == sorted_positions(keys@, n as int),
            !custom ==> forall|i: int| 0 <= i < n ==> out@[i] == i,
            forall|i: int| 0 <= i < out@.len() ==> (#[trigger] out@[i]) < n,
        decreases keys@.len() - n,
    {
        if custom {
            let ghost order = ints(out@);
            let mut p: usize = 0;
            while p < out.len() && keys[out[p]] <= keys[n]
                invariant
                    n < keys@.len(),
                    p <= out@.len(),
                    out@.len() == n,
                    order == ints(out@),
                    place(order, keys@, keys@[n as int], 0) == place(
                        order,
                        keys@,
                        keys@[n as int],
                        p as int,
                    ),
                    forall|i: int| 0 <= i < out@.len() ==> (#[trigger] out@[i]) < n,
                decreases out@.len() - p,
            {
                assert(order[p as int] == out@[p as int] as int);
                p += 1;
            }
            proof {
                if p < out@.len() {
                    assert(order[p as int] == out@[p as int] as int);
                }
                assert(place(order, keys@, keys@[n as int], 0) == p);
                assert(ints(out@.insert(p as int, n)) =~= order.insert(p as int, n as int));
            }
            out.insert(p, n);
        } else {
            out.push(n);
        }
        n += 1;
    }
    assert(!custom ==> ints(out@) =~= draw_order(keys@, custom));
    out
}

} // verus!
