//! Generic extremal search: the first element of a slice whose derived key is
//! minimal.

use vstd::prelude::*;
use vstd::laws_cmp::obeys_cmp;
use vstd::laws_eq::obeys_concrete_eq;
use vstd::std_specs::cmp::PartialOrdSpec;
use core::cmp::Ordering;

verus! {

/// `a` comes strictly before `b` in the order that `partial_cmp` describes.
pub open spec fn key_lt<K: PartialOrd>(a: K, b: K) -> bool {
    a.partial_cmp_spec(&b) == Some(Ordering::Less)
}

/// Index `i` picks out the first minimum of the keys `ks`: no key anywhere in
/// `ks` is strictly below `ks[i]`, and `ks[i]` is strictly below every key
/// that comes before it.
pub open spec fn is_first_min<K: PartialOrd>(ks: Seq<K>, i: int) -> bool {
    &&& 0 <= i < ks.len()
    &&& forall|j: int| 0 <= j < ks.len() ==> !key_lt(#[trigger] ks[j], ks[i])
    &&& forall|j: int| 0 <= j < i ==> key_lt(ks[i], #[trigger] ks[j])
}

/// On a type whose comparison is a lawful total order and whose equality is
/// plain value equality, `key_lt` is transitive and asymmetric, and two
/// mutually incomparable values are equal.
proof fn lemma_key_order<K: Ord>()
    requires
        obeys_cmp::<K>(),
        obeys_concrete_eq::<K>(),
    ensures
        K::obeys_partial_cmp_spec(),
        forall|x: K, y: K, z: K|
            #[trigger] key_lt(x, y) && #[trigger] key_lt(y, z) ==> key_lt(x, z),
        forall|x: K, y: K| #[trigger] key_lt(x, y) ==> !key_lt(y, x),
        forall|x: K, y: K| !(#[trigger] key_lt(x, y)) && !key_lt(y, x) ==> x == y,
{
    reveal(vstd::laws_cmp::obeys_cmp_partial_ord);
    reveal(vstd::laws_cmp::obeys_cmp_ord);
    reveal(vstd::laws_cmp::obeys_partial_cmp_spec_properties);
    reveal(vstd::laws_eq::obeys_concrete_eq);
}

/// What `min_by_key` promises about a returned element `m`: some sequence of
/// keys `ks`, each a key that `f` can report for the corresponding element,
/// has its first minimum at an index `i`, and `m` is the element there.
pub open spec fn picks_first_min<T, K: PartialOrd, F: Fn(&T) -> K>(
    items: Seq<T>,
    f: F,
    m: T,
) -> bool {
    exists|ks: Seq<K>, i: int|
        {
            &&& ks.len() == items.len()
            &&& (forall|j: int| 0 <= j < items.len() ==> call_ensures(f, (&items[j],), #[trigger] ks[j]))
            &&& is_first_min(ks, i)
            &&& m == items[i]
        }
}

/// Returns a reference to the first element whose key, as computed by `f`, is
/// minimal, or nothing when the slice is empty. A later element replaces the
/// running minimum only when its key is strictly smaller, so among equal keys
/// the earliest element wins.
///
/// The two `obeys` premises say that comparison on `K` is a lawful total
/// order over the values themselves; every integer type satisfies both.
pub fn min_by_key<T, K: Ord, F: Fn(&T) -> K>(items: &[T], f: F) -> (r: Option<&T>)
    requires
        obeys_cmp::<K>(),
        obeys_concrete_eq::<K>(),
        forall|i: int| 0 <= i < items@.len() ==> call_requires(f, (&items@[i],)),
    ensures
        r is Some <==> items@.len() > 0,
        match r {
            None => items@.len() == 0,
            Some(m) => picks_first_min(items@, f, *m),
        },
{
    proof {
        lemma_key_order::<K>();
    }
    if items.len() == 0 {
        return None;
    }
    let mut min: &T = &items[0];
    let mut min_key: K = f(min);
    let ghost mut ks: Seq<K> = seq![min_key];
    let ghost mut best: int = 0;
    let mut j: usize = 1;
    while j < items.len()
        invariant
            1 <= j <= items@.len(),
            obeys_cmp::<K>(),
            obeys_concrete_eq::<K>(),
            forall|i: int| 0 <= i < items@.len() ==> call_requires(f, (&items@[i],)),
            ks.len() == j,
            forall|i: int| 0 <= i < j ==> call_ensures(f, (&items@[i],), #[trigger] ks[i]),
            is_first_min(ks, best),
            min_key == ks[best],
            *min == items@[best],
        decreases items@.len() - j,
    {
        proof {
            lemma_key_order::<K>();
        }
        let item: &T = &items[j];
        let key: K = f(item);
        proof {
            ks = ks.push(key);
        }
        if key < min_key {
            min = item;
            min_key = key;
            proof {
                best = j as int;
            }
        }
        j = j + 1;
    }
    proof {
        assert(picks_first_min(items@, f, *min)) by {
            assert(ks.len() == items@.len() && is_first_min(ks, best) && *min == items@[best]);
        }
    }
    Some(min)
}

} // verus!
