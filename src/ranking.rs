//! Stable descending order of positions by an integer key.
use vstd::prelude::*;

verus! {

/// Position `i` comes before position `j`: a larger key first, and between
/// equal keys the earlier position.
pub open spec fn key_before(keys: Seq<u64>, i: int, j: int) -> bool {
    keys[i] > keys[j] || (keys[i] == keys[j] && i < j)
}

/// `ord` lists every position of `keys` once, in that order.
pub open spec fn is_desc_ranking(keys: Seq<u64>, ord: Seq<usize>) -> bool {
    &&& ord.len() == keys.len()
    &&& forall|k: int| 0 <= k < ord.len() ==> (#[trigger] ord[k]) < keys.len()
    &&& forall|x: usize| x < keys.len() ==> #[trigger] ord.contains(x)
    &&& forall|a: int, b: int|
        0 <= a < b < ord.len() ==> key_before(keys, #[trigger] ord[a] as int, #[trigger] ord[b] as int)
}

/// The positions of `v` by descending key, ties kept in their original
/// order: the order a stable descending sort gives.
pub fn order_by_key_desc(v: &Vec<u64>) -> (ord: Vec<usize>)
    ensures
        is_desc_ranking(v@, ord@),
{
    let ghost keys = v@;
    let mut ord: Vec<usize> = Vec::new();
    let mut i: usize = 0;
    while i < v.len()
        invariant
            i <= v@.len(),
            keys == v@,
            ord@.len() == i,
            forall|k: int| 0 <= k < ord@.len() ==> (#[trigger] ord@[k]) < i,
            forall|x: usize| x < i ==> #[trigger] ord@.contains(x),
            forall|a: int, b: int|
                0 <= a < b < ord@.len() ==> key_before(
                    keys,
                    #[trigger] ord@[a] as int,
                    #[trigger] ord@[b] as int,
                ),
        decreases v@.len() - i,
    {
        let t = v[i];
        let mut p: usize = 0;
        while p < ord.len() && v[ord[p]] >= t
            invariant
                p <= ord@.len(),
                i < v@.len(),
                keys == v@,
                t == keys[i as int],
                forall|k: int| 0 <= k < ord@.len() ==> (#[trigger] ord@[k]) < i,
                forall|q: int| 0 <= q < p ==> keys[(#[trigger] ord@[q]) as int] >= t,
            decreases ord@.len() - p,
        {
            assert(keys[ord@[p as int] as int] == v@[ord@[p as int] as int]);
            p = p + 1;
        }
        proof {
            if p < ord@.len() {
                assert(keys[ord@[p as int] as int] == v@[ord@[p as int] as int]);
            }
        }
        let ghost old_ord = ord@;
        ord.insert(p, i);
        proof {
            assert(ord@ =~= old_ord.insert(p as int, i));
            assert forall|a: int, b: int|
                0 <= a < b < ord@.len() implies key_before(
                keys,
                #[trigger] ord@[a] as int,
                #[trigger] ord@[b] as int,
            ) by {
                if b < p {
                    assert(key_before(keys, old_ord[a] as int, old_ord[b] as int));
                } else if b == p {
                    assert(keys[old_ord[a] as int] >= t);
                } else if a < p {
                    assert(key_before(keys, old_ord[a] as int, old_ord[b - 1] as int));
                } else if a == p {
                    assert(keys[old_ord[p as int] as int] < t);
                    if b - 1 > p {
                        assert(key_before(keys, old_ord[p as int] as int, old_ord[b - 1] as int));
                    }
                } else {
                    assert(key_before(keys, old_ord[a - 1] as int, old_ord[b - 1] as int));
                }
            }
            assert forall|x: usize| x < i + 1 implies #[trigger] ord@.contains(x) by {
                if x == i {
                    assert(ord@[p as int] == i);
                } else {
                    assert(old_ord.contains(x));
                    let w = choose|w: int| 0 <= w < old_ord.len() && old_ord[w] == x;
                    if w < p {
                        assert(ord@[w] == x);
                    } else {
                        assert(ord@[w + 1] == x);
                    }
                }
            }
        }
        i = i + 1;
    }
    ord
}


} // verus!
