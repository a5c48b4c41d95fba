//! Laws of the order of strings.
use vstd::prelude::*;

use crate::order::{ascending, find, precedes, relation, sorted_distinct, Relation, TextMap};
use crate::text::views;

verus! {

/// Whether `a` and `b` agree before the `k`-th character and `a` is over there
/// or has the smaller one.
pub open spec fn differ_at(a: Seq<char>, b: Seq<char>, k: int) -> bool {
    &&& 0 <= k <= a.len()
    &&& k < b.len()
    &&& a.take(k) == b.take(k)
    &&& k == a.len() || a[k] < b[k]
}

/// Whether `a` has the smaller character at the first difference, or is over
/// there.
pub open spec fn smaller_at_first_difference(a: Seq<char>, b: Seq<char>) -> bool {
    exists|k: int| #[trigger] differ_at(a, b, k)
}

/// One string comes before another exactly when it has the smaller character
/// at the first difference, or is over there.
pub proof fn order_is_by_the_first_difference(a: Seq<char>, b: Seq<char>)
    ensures
        precedes(a, b) <==> smaller_at_first_difference(a, b),
    decreases a.len(),
{
    if b.len() > 0 && (a.len() == 0 || a[0] != b[0]) {
        assert(a.take(0) =~= b.take(0));
        if precedes(a, b) {
            assert(differ_at(a, b, 0));
        }
        if exists|k: int| #[trigger] differ_at(a, b, k) {
            let k = choose|k: int| #[trigger] differ_at(a, b, k);
            if k > 0 {
                assert(a.take(k)[0] == a[0]);
                assert(b.take(k)[0] == b[0]);
            }
        }
    } else if b.len() > 0 {
        let x = a.skip(1);
        let y = b.skip(1);
        order_is_by_the_first_difference(x, y);
        if precedes(x, y) {
            let k = choose|k: int| #[trigger] differ_at(x, y, k);
            assert forall|i: int| 0 <= i < k + 1 implies a[i] == b[i] by {
                if i > 0 {
                    assert(x.take(k)[i - 1] == y.take(k)[i - 1]);
                }
            }
            assert(a.take(k + 1) =~= b.take(k + 1));
            assert(differ_at(a, b, k + 1));
        }
        if exists|k: int| #[trigger] differ_at(a, b, k) {
            let k = choose|k: int| #[trigger] differ_at(a, b, k);
            assert(k > 0);
            assert forall|i: int| 0 <= i < k - 1 implies x[i] == y[i] by {
                assert(a.take(k)[i + 1] == b.take(k)[i + 1]);
            }
            assert(x.take(k - 1) =~= y.take(k - 1));
            assert(differ_at(x, y, k - 1));
        }
    }
}

/// Sorting keeps each string, once.
pub proof fn sorting_keeps_each_string(list: Vec<String>, r: Vec<String>, s: Seq<char>)
    requires
        call_ensures(sorted_distinct, (&list,), r),
    ensures
        views(r@).contains(s) <==> views(list@).contains(s),
        forall|i: int, j: int|
            0 <= i < j < r@.len() ==> smaller_at_first_difference(
                (#[trigger] r@[i])@,
                (#[trigger] r@[j])@,
            ),
{
    assert(views(r@).to_set().contains(s) == views(list@).to_set().contains(s));
    assert forall|i: int, j: int| 0 <= i < j < r@.len() implies smaller_at_first_difference(
        (#[trigger] r@[i])@,
        (#[trigger] r@[j])@,
    ) by {
        assert(views(r@)[i] == r@[i]@ && views(r@)[j] == r@[j]@);
        order_is_by_the_first_difference(r@[i]@, r@[j]@);
    }
}

/// A map holds what was put under a key, loses what is taken out, and keeps
/// what lies under every other key; what it tells is what it holds.
pub proof fn maps_hold_what_was_put<V>(
    put: &mut TextMap<V>,
    taken: &mut TextMap<V>,
    map: TextMap<V>,
    fresh: TextMap<V>,
    key: &str,
    value: V,
    r: Option<V>,
    found: Option<&V>,
    has: bool,
    other: Seq<char>,
)
    requires
        old(put).wf(),
        old(taken).wf(),
        map.wf(),
        call_ensures(TextMap::<V>::insert, (put, key, value), ()),
        call_ensures(TextMap::<V>::remove, (taken, key), r),
        call_ensures(TextMap::<V>::get, (&map, key), found),
        call_ensures(TextMap::<V>::contains, (&map, key), has),
        call_ensures(TextMap::<V>::new, (), fresh),
        other != key@,
    ensures
        final(put).wf() && final(put)@.contains_key(key@) && final(put)@[key@] == value,
        final(put)@.contains_key(other) == old(put)@.contains_key(other),
        old(put)@.contains_key(other) ==> final(put)@[other] == old(put)@[other],
        final(taken).wf() && !final(taken)@.contains_key(key@),
        r is Some <==> old(taken)@.contains_key(key@),
        r is Some ==> r->0 == old(taken)@[key@],
        final(taken)@.contains_key(other) == old(taken)@.contains_key(other),
        old(taken)@.contains_key(other) ==> final(taken)@[other] == old(taken)@[other],
        found is Some <==> map@.contains_key(key@),
        found is Some ==> *found->0 == map@[key@],
        has <==> map@.contains_key(key@),
        !fresh@.contains_key(other),
{
}

/// Two strings are compared by their first difference; a sorted list is
/// searched by its order.
pub proof fn strings_are_compared_by_their_first_difference(
    a: &str,
    b: &str,
    r: Relation,
    list: Vec<String>,
    found: (usize, bool),
)
    requires
        call_ensures(relation, (a, b), r),
        ascending(views(list@)),
        call_ensures(find, (&list, a), found),
    ensures
        r == Relation::Same <==> a@ == b@,
        r == Relation::Before <==> smaller_at_first_difference(a@, b@),
        r == Relation::After <==> smaller_at_first_difference(b@, a@),
        found.1 <==> views(list@).contains(a@),
        found.1 ==> list@[found.0 as int]@ == a@,
{
    order_is_by_the_first_difference(a@, b@);
    order_is_by_the_first_difference(b@, a@);
}

/// The keys of a map come in ascending order, each once, and a map is empty
/// exactly when it has none.
pub proof fn keys_come_in_order<V>(map: TextMap<V>, keys: &Vec<String>, n: usize, key: Seq<char>)
    requires
        map.wf(),
        call_ensures(TextMap::<V>::keys, (&map,), keys),
        call_ensures(TextMap::<V>::len, (&map,), n),
    ensures
        n == keys@.len(),
        views(keys@).contains(key) <==> map@.contains_key(key),
        forall|i: int, j: int|
            0 <= i < j < keys@.len() ==> smaller_at_first_difference(
                (#[trigger] keys@[i])@,
                (#[trigger] keys@[j])@,
            ),
{
    assert forall|i: int, j: int| 0 <= i < j < keys@.len() implies smaller_at_first_difference(
        (#[trigger] keys@[i])@,
        (#[trigger] keys@[j])@,
    ) by {
        assert(views(keys@)[i] == keys@[i]@ && views(keys@)[j] == keys@[j]@);
        order_is_by_the_first_difference(keys@[i]@, keys@[j]@);
    }
}

} // verus!
