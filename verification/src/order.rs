//! Putting things in order by keys. A key is a list of numbers; keys are
//! compared number by number, and a key that is the beginning of another
//! comes first. Things with equal keys keep the order they came in.

use vstd::prelude::*;

verus! {

/// The views of the keys, in order.
pub open spec fn key_views(keys: Seq<Vec<u64>>) -> Seq<Seq<u64>> {
    keys.map_values(|k: Vec<u64>| k@)
}

/// Whether key `a` comes no later than key `b`.
pub open spec fn key_le(a: Seq<u64>, b: Seq<u64>) -> bool
    decreases a.len(),
{
    if a.len() == 0 {
        true
    } else if b.len() == 0 {
        false
    } else {
        a[0] < b[0] || (a[0] == b[0] && key_le(a.skip(1), b.skip(1)))
    }
}

/// Whether the thing at `x` belongs before the thing at `y`: its key comes
/// earlier, or the keys are level and it came in earlier.
pub open spec fn precedes(keys: Seq<Seq<u64>>, x: int, y: int) -> bool {
    !key_le(keys[y], keys[x]) || (key_le(keys[x], keys[y]) && x < y)
}

/// Whether `order` puts the `n` things with the given keys in order: it
/// names each of them once, and each stands before all that follow it.
pub open spec fn in_order(keys: Seq<Seq<u64>>, order: Seq<usize>) -> bool {
    &&& order.len() == keys.len()
    &&& forall|i: int| 0 <= i < order.len() ==> #[trigger] order[i] < keys.len()
    &&& forall|i: int, j: int|
        #![trigger order[i], order[j]]
        0 <= i < j < order.len() ==> order[i] != order[j] && precedes(
            keys,
            order[i] as int,
            order[j] as int,
        )
}

/// Of two keys, one comes no later than the other.
pub proof fn lemma_key_le_total(a: Seq<u64>, b: Seq<u64>)
    ensures
        key_le(a, b) || key_le(b, a),
    decreases a.len(),
{
    if a.len() > 0 && b.len() > 0 && a[0] == b[0] {
        lemma_key_le_total(a.skip(1), b.skip(1));
    }
}

/// A key that comes no later than a second, which comes no later than a
/// third, comes no later than the third.
pub proof fn lemma_key_le_transitive(a: Seq<u64>, b: Seq<u64>, c: Seq<u64>)
    requires
        key_le(a, b),
        key_le(b, c),
    ensures
        key_le(a, c),
    decreases a.len(),
{
    if a.len() > 0 && b.len() > 0 && c.len() > 0 && a[0] == b[0] && b[0] == c[0] {
        lemma_key_le_transitive(a.skip(1), b.skip(1), c.skip(1));
    }
}

/// Keys that agree up to `n` compare as what follows `n` in them.
proof fn lemma_key_le_after_common(a: Seq<u64>, b: Seq<u64>, n: int)
    requires
        0 <= n <= a.len(),
        n <= b.len(),
        forall|k: int| 0 <= k < n ==> a[k] == b[k],
    ensures
        key_le(a, b) == key_le(a.skip(n), b.skip(n)),
    decreases n,
{
    if n > 0 {
        assert forall|k: int| 0 <= k < n - 1 implies a.skip(1)[k] == b.skip(1)[k] by {
            assert(a.skip(1)[k] == a[k + 1]);
            assert(b.skip(1)[k] == b[k + 1]);
        }
        lemma_key_le_after_common(a.skip(1), b.skip(1), n - 1);
        assert(a.skip(1).skip(n - 1) == a.skip(n));
        assert(b.skip(1).skip(n - 1) == b.skip(n));
    } else {
        assert(a.skip(0) == a);
        assert(b.skip(0) == b);
    }
}

/// Whether key `a` comes no later than key `b`.
pub fn key_no_later(a: &Vec<u64>, b: &Vec<u64>) -> (le: bool)
    ensures
        le == key_le(a@, b@),
{
    let mut i: usize = 0;
    while i < a.len() && i < b.len() && a[i] == b[i]
        invariant
            i <= a.len(),
            i <= b.len(),
            forall|k: int| 0 <= k < i ==> a@[k] == b@[k],
        decreases a.len() - i,
    {
        i += 1;
    }
    proof {
        lemma_key_le_after_common(a@, b@, i as int);
    }
    if i == a.len() {
        true
    } else if i == b.len() {
        false
    } else {
        proof {
            assert(a@.skip(i as int)[0] == a@[i as int]);
            assert(b@.skip(i as int)[0] == b@[i as int]);
        }
        a[i] < b[i]
    }
}

/// The order of the things with the given keys: the places of the things,
/// the first to come first. Things with level keys stay as they came.
pub fn stable_order(keys: &Vec<Vec<u64>>) -> (order: Vec<usize>)
    ensures
        in_order(key_views(keys@), order@),
{
    let ghost ks = key_views(keys@);
    let n = keys.len();
    let mut order: Vec<usize> = Vec::new();
    let mut x: usize = 0;
    while x < n
        invariant
            x <= n,
            n == keys.len(),
            ks == key_views(keys@),
            order.len() == x,
            forall|i: int| 0 <= i < order.len() ==> #[trigger] order@[i] < x,
            forall|i: int, j: int|
                #![trigger order@[i], order@[j]]
                0 <= i < j < order.len() ==> order@[i] != order@[j] && precedes(
                    ks,
                    order@[i] as int,
                    order@[j] as int,
                ),
        decreases n - x,
    {
        let mut p: usize = order.len();
        while p > 0 && !key_no_later(&keys[order[p - 1]], &keys[x])
            invariant
                p <= order.len(),
                x < n,
                n == keys.len(),
                ks == key_views(keys@),
                forall|i: int| 0 <= i < order.len() ==> #[trigger] order@[i] < x,
                forall|i: int, j: int|
                    #![trigger order@[i], order@[j]]
                    0 <= i < j < order.len() ==> order@[i] != order@[j] && precedes(
                        ks,
                        order@[i] as int,
                        order@[j] as int,
                    ),
                forall|i: int| p <= i < order.len() ==> !key_le(ks[#[trigger] order@[i] as int], ks[x as int]),
            decreases p,
        {
            proof {
                assert(ks[order@[p - 1] as int] == keys@[order@[p - 1] as int]@);
                assert(ks[x as int] == keys@[x as int]@);
            }
            p -= 1;
        }
        let ghost before = order@;
        proof {
            if p > 0 {
                assert(ks[before[p - 1] as int] == keys@[before[p - 1] as int]@);
                assert(ks[x as int] == keys@[x as int]@);
                assert(key_le(ks[before[p - 1] as int], ks[x as int]));
            }
        }
        order.insert(p, x);
        proof {
            assert(order@ == before.insert(p as int, x));
            assert(order@[p as int] == x);
            assert forall|i: int, j: int|
                #![trigger order@[i], order@[j]]
                0 <= i < j < order.len() implies order@[i] != order@[j] && precedes(
                ks,
                order@[i] as int,
                order@[j] as int,
            ) by {
                if j < p || i > p {
                    // Both were there before.
                    let a = if i > p {
                        i - 1
                    } else {
                        i
                    };
                    let b = if j > p {
                        j - 1
                    } else {
                        j
                    };
                    assert(order@[i] == before[a]);
                    assert(order@[j] == before[b]);
                    assert(before[a] != before[b] && precedes(ks, before[a] as int, before[b] as int));
                } else if i == p {
                    // The new one, and one that was passed over.
                    assert(order@[j] == before[j - 1]);
                    assert(before[j - 1] < x);
                    assert(!key_le(ks[before[j - 1] as int], ks[x as int]));
                    assert(precedes(ks, x as int, before[j - 1] as int));
                } else if j == p {
                    // One that stays in front, and the new one.
                    assert(order@[i] == before[i]);
                    assert(before[i] < x);
                    if i < p - 1 {
                        assert(before[i] != before[p - 1] && precedes(ks, before[i] as int, before[p - 1] as int));
                        lemma_key_le_total(ks[before[i] as int], ks[before[p - 1] as int]);
                        lemma_key_le_transitive(
                            ks[before[i] as int],
                            ks[before[p - 1] as int],
                            ks[x as int],
                        );
                    }
                    assert(key_le(ks[before[i] as int], ks[x as int]));
                    assert(precedes(ks, before[i] as int, x as int));
                } else {
                    // One from the front, one from behind the new one.
                    assert(order@[i] == before[i]);
                    assert(order@[j] == before[j - 1]);
                    assert(before[i] != before[j - 1] && precedes(ks, before[i] as int, before[j - 1] as int));
                }
            }
            assert forall|i: int| 0 <= i < order.len() implies #[trigger] order@[i] < x + 1 by {
                if i < p {
                    assert(order@[i] == before[i]);
                } else if i > p {
                    assert(order@[i] == before[i - 1]);
                }
            }
        }
        x += 1;
    }
    assert(ks.len() == n);
    order
}

/// The texts of `items` in the given order.
pub open spec fn picked(items: Seq<Seq<char>>, order: Seq<usize>) -> Seq<Seq<char>> {
    Seq::new(order.len(), |i: int| items[order[i] as int])
}

/// The texts of `items` in the given order.
pub(crate) fn pick_texts(items: &Vec<String>, order: &Vec<usize>) -> (out: Vec<String>)
    requires
        forall|i: int| 0 <= i < order.len() ==> #[trigger] order@[i] < items.len(),
    ensures
        crate::text::views(out@) == picked(crate::text::views(items@), order@),
{
    let mut out: Vec<String> = Vec::new();
    let mut i: usize = 0;
    while i < order.len()
        invariant
            i <= order.len(),
            out.len() == i,
            forall|k: int| 0 <= k < order.len() ==> #[trigger] order@[k] < items.len(),
            forall|k: int| 0 <= k < i ==> (#[trigger] out@[k])@ == items@[order@[k] as int]@,
        decreases order.len() - i,
    {
        out.push(items[order[i]].clone());
        i += 1;
    }
    assert(crate::text::views(out@) =~= picked(crate::text::views(items@), order@));
    out
}

} // verus!
