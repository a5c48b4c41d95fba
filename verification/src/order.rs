//! The order of strings, and what is kept in that order.
//!
//! Strings compare by their bytes. In UTF-8 that is the order of their code
//! points, which is what is compared here.
use vstd::prelude::*;

use crate::text::{chars_of, views};

verus! {

/// Whether `a` comes before `b`.
pub open spec fn precedes(a: Seq<char>, b: Seq<char>) -> bool
    decreases a.len(),
{
    if b.len() == 0 {
        false
    } else if a.len() == 0 {
        true
    } else if a[0] != b[0] {
        a[0] < b[0]
    } else {
        precedes(a.skip(1), b.skip(1))
    }
}

/// Of two different strings exactly one comes first, and no string comes
/// before itself.
pub proof fn precedes_is_total(a: Seq<char>, b: Seq<char>)
    ensures
        !(precedes(a, b) && precedes(b, a)),
        a != b ==> precedes(a, b) || precedes(b, a),
        a == b ==> !precedes(a, b),
    decreases a.len(),
{
    if a.len() == 0 || b.len() == 0 {
        if a.len() == b.len() {
            assert(a =~= b);
        }
    } else if a[0] == b[0] {
        precedes_is_total(a.skip(1), b.skip(1));
        if a.skip(1) == b.skip(1) {
            assert(a =~= seq![a[0]] + a.skip(1));
            assert(b =~= seq![b[0]] + b.skip(1));
        }
    }
}

/// The order is transitive.
pub proof fn precedes_is_transitive(a: Seq<char>, b: Seq<char>, c: Seq<char>)
    requires
        precedes(a, b),
        precedes(b, c),
    ensures
        precedes(a, c),
    decreases a.len(),
{
    if a.len() > 0 && a[0] == b[0] && b[0] == c[0] {
        precedes_is_transitive(a.skip(1), b.skip(1), c.skip(1));
    }
}

/// How two strings stand to each other.
#[derive(Debug, Clone, Copy, PartialEq, Eq, Structural)]
pub enum Relation {
    Before,
    Same,
    After,
}

/// Compares two strings.
pub fn relation(a: &str, b: &str) -> (r: Relation)
    ensures
        r == Relation::Before <==> precedes(a@, b@),
        r == Relation::Same <==> a@ == b@,
        r == Relation::After <==> precedes(b@, a@),
{
    let x = chars_of(a);
    let y = chars_of(b);
    let mut i: usize = 0;
    assert(a@.skip(0) =~= a@);
    assert(b@.skip(0) =~= b@);
    while i < x.len() && i < y.len()
        invariant
            x@ == a@,
            y@ == b@,
            i <= x.len(),
            i <= y.len(),
            a@.take(i as int) == b@.take(i as int),
            precedes(a@, b@) == precedes(a@.skip(i as int), b@.skip(i as int)),
            precedes(b@, a@) == precedes(b@.skip(i as int), a@.skip(i as int)),
        decreases x.len() - i,
    {
        proof {
            precedes_is_total(a@, b@);
        }
        assert(a@.skip(i as int)[0] == a@[i as int]);
        assert(b@.skip(i as int)[0] == b@[i as int]);
        if x[i] < y[i] {
            return Relation::Before;
        }
        if y[i] < x[i] {
            return Relation::After;
        }
        assert(a@.skip(i as int).skip(1) =~= a@.skip(i + 1));
        assert(b@.skip(i as int).skip(1) =~= b@.skip(i + 1));
        assert(a@.take(i + 1) =~= a@.take(i as int).push(a@[i as int]));
        assert(b@.take(i + 1) =~= b@.take(i as int).push(b@[i as int]));
        i = i + 1;
    }
    proof {
        precedes_is_total(a@, b@);
        if x.len() == y.len() {
            assert(a@.take(i as int) =~= a@);
            assert(b@.take(i as int) =~= b@);
        }
    }
    if x.len() > i {
        Relation::After
    } else if y.len() > i {
        Relation::Before
    } else {
        Relation::Same
    }
}

/// Whether each string comes before all that follow it.
pub open spec fn ascending(s: Seq<Seq<char>>) -> bool {
    forall|i: int, j: int| 0 <= i < j < s.len() ==> precedes(#[trigger] s[i], #[trigger] s[j])
}

/// Two ascending lists of the same strings are the same list.
pub proof fn ascending_is_unique(a: Seq<Seq<char>>, b: Seq<Seq<char>>)
    requires
        ascending(a),
        ascending(b),
        a.to_set() == b.to_set(),
    ensures
        a == b,
    decreases a.len(),
{
    assert forall|x: Seq<char>| a.contains(x) <==> b.contains(x) by {
        assert(a.to_set().contains(x) == a.contains(x));
        assert(b.to_set().contains(x) == b.contains(x));
    }
    if a.len() == 0 {
        if b.len() > 0 {
            assert(b.contains(b[0]));
        }
        assert(a =~= b);
    } else {
        assert(a.contains(a[0]));
        let i = choose|i: int| 0 <= i < b.len() && b[i] == a[0];
        assert(b.contains(b[0]));
        let j = choose|j: int| 0 <= j < a.len() && a[j] == b[0];
        precedes_is_total(a[0], b[0]);
        if i > 0 && j > 0 {
            assert(precedes(b[0], b[i]));
            assert(precedes(a[0], a[j]));
        }
        assert(a[0] == b[0]);
        let a1 = a.skip(1);
        let b1 = b.skip(1);
        assert forall|x: Seq<char>| a1.to_set().contains(x) <==> b1.to_set().contains(x) by {
            if a1.contains(x) {
                let k = choose|k: int| 0 <= k < a1.len() && a1[k] == x;
                assert(a[k + 1] == x);
                assert(a.contains(x));
                let m = choose|m: int| 0 <= m < b.len() && b[m] == x;
                precedes_is_total(a[0], x);
                assert(precedes(a[0], a[k + 1]));
                assert(b1[m - 1] == x);
            }
            if b1.contains(x) {
                let k = choose|k: int| 0 <= k < b1.len() && b1[k] == x;
                assert(b[k + 1] == x);
                assert(b.contains(x));
                let m = choose|m: int| 0 <= m < a.len() && a[m] == x;
                precedes_is_total(b[0], x);
                assert(precedes(b[0], b[k + 1]));
                assert(a1[m - 1] == x);
            }
        }
        assert(a1.to_set() =~= b1.to_set());
        assert(ascending(a1)) by {
            assert forall|p: int, q: int| 0 <= p < q < a1.len() implies precedes(
                #[trigger] a1[p],
                #[trigger] a1[q],
            ) by {
                assert(precedes(a[p + 1], a[q + 1]));
            }
        }
        assert(ascending(b1)) by {
            assert forall|p: int, q: int| 0 <= p < q < b1.len() implies precedes(
                #[trigger] b1[p],
                #[trigger] b1[q],
            ) by {
                assert(precedes(b[p + 1], b[q + 1]));
            }
        }
        ascending_is_unique(a1, b1);
        assert(a =~= seq![a[0]] + a1);
        assert(b =~= seq![b[0]] + b1);
    }
}

/// Where `key` stands, or would have to be inserted, in an ascending list.
pub fn find(list: &Vec<String>, key: &str) -> (r: (usize, bool))
    requires
        ascending(views(list@)),
    ensures
        r.0 <= list@.len(),
        r.1 ==> r.0 < list@.len() && list@[r.0 as int]@ == key@,
        r.1 == views(list@).contains(key@),
        forall|i: int| 0 <= i < r.0 ==> precedes((#[trigger] list@[i])@, key@),
        !r.1 ==> forall|i: int| r.0 <= i < list@.len() ==> precedes(key@, (#[trigger] list@[i])@),
{
    let ghost keys = views(list@);
    let mut i: usize = 0;
    while i < list.len()
        invariant
            i <= list.len(),
            keys == views(list@),
            ascending(keys),
            forall|j: int| 0 <= j < i ==> precedes((#[trigger] list@[j])@, key@),
        decreases list.len() - i,
    {
        match relation(list[i].as_str(), key) {
            Relation::Before => {},
            Relation::Same => {
                assert(keys[i as int] == key@);
                return (i, true);
            },
            Relation::After => {
                proof {
                    not_among(keys, i as int, key@);
                    assert forall|j: int| i <= j < list@.len() implies precedes(
                        key@,
                        (#[trigger] list@[j])@,
                    ) by {
                        if j > i {
                            assert(precedes(keys[i as int], keys[j]));
                            precedes_is_transitive(key@, keys[i as int], keys[j]);
                        }
                    }
                }
                return (i, false);
            },
        }
        i = i + 1;
    }
    proof {
        not_among(keys, i as int, key@);
    }
    (i, false)
}

/// A string that stands between two neighbours of an ascending list is not in
/// the list.
proof fn not_among(keys: Seq<Seq<char>>, at: int, key: Seq<char>)
    requires
        ascending(keys),
        0 <= at <= keys.len(),
        forall|i: int| 0 <= i < at ==> precedes(#[trigger] keys[i], key),
        at < keys.len() ==> precedes(key, keys[at]),
    ensures
        !keys.contains(key),
{
    if keys.contains(key) {
        let i = choose|i: int| 0 <= i < keys.len() && keys[i] == key;
        precedes_is_total(key, key);
        if i > at {
            assert(precedes(keys[at], keys[i]));
            precedes_is_total(key, keys[at]);
        }
    }
}

/// Inserting a string at its place keeps a list ascending.
pub proof fn insert_keeps_ascending(keys: Seq<Seq<char>>, at: int, key: Seq<char>)
    requires
        ascending(keys),
        0 <= at <= keys.len(),
        forall|i: int| 0 <= i < at ==> precedes(#[trigger] keys[i], key),
        forall|i: int| at <= i < keys.len() ==> precedes(key, #[trigger] keys[i]),
    ensures
        ascending(keys.insert(at, key)),
        keys.insert(at, key).to_set() == keys.to_set().insert(key),
{
    let more = keys.insert(at, key);
    assert forall|i: int, j: int| 0 <= i < j < more.len() implies precedes(
        #[trigger] more[i],
        #[trigger] more[j],
    ) by {
        let p = if i < at {
            i
        } else {
            i - 1
        };
        let q = if j < at {
            j
        } else {
            j - 1
        };
        if i != at && j != at {
            assert(precedes(keys[p], keys[q]));
        }
    }
    assert forall|x: Seq<char>| more.to_set().contains(x) <==> keys.to_set().insert(key).contains(
        x,
    ) by {
        if more.contains(x) {
            let i = choose|i: int| 0 <= i < more.len() && more[i] == x;
            if i < at {
                assert(keys[i] == x);
            } else if i > at {
                assert(keys[i - 1] == x);
            }
        }
        if keys.contains(x) {
            let i = choose|i: int| 0 <= i < keys.len() && keys[i] == x;
            if i < at {
                assert(more[i] == x);
            } else {
                assert(more[i + 1] == x);
            }
        }
        assert(more[at] == key);
    }
    assert(more.to_set() =~= keys.to_set().insert(key));
}

/// The strings of a list in ascending order, each once.
pub fn sorted_distinct(list: &Vec<String>) -> (r: Vec<String>)
    ensures
        ascending(views(r@)),
        views(r@).to_set() == views(list@).to_set(),
{
    let ghost all = views(list@);
    let mut out: Vec<String> = Vec::new();
    let mut i: usize = 0;
    assert(views(out@).to_set() =~= all.take(0).to_set());
    while i < list.len()
        invariant
            i <= list.len(),
            all == views(list@),
            ascending(views(out@)),
            views(out@).to_set() == all.take(i as int).to_set(),
        decreases list.len() - i,
    {
        let ghost before = views(out@);
        let (at, present) = find(&out, list[i].as_str());
        if !present {
            proof {
                assert forall|j: int| 0 <= j < at implies precedes(
                    #[trigger] before[j],
                    all[i as int],
                ) by {
                    assert(precedes(out@[j]@, all[i as int]));
                }
                assert forall|j: int| at <= j < before.len() implies precedes(
                    all[i as int],
                    #[trigger] before[j],
                ) by {
                    assert(precedes(all[i as int], out@[j]@));
                }
                insert_keeps_ascending(before, at as int, all[i as int]);
            }
            out.insert(at, list[i].clone());
            assert(views(out@) =~= before.insert(at as int, all[i as int]));
        } else {
            assert(before.to_set() =~= before.to_set().insert(all[i as int]));
        }
        proof {
            take_set(all, i as int);
        }
        i = i + 1;
    }
    assert(all.take(all.len() as int) =~= all);
    out
}

proof fn take_set(all: Seq<Seq<char>>, i: int)
    requires
        0 <= i < all.len(),
    ensures
        all.take(i + 1).to_set() == all.take(i).to_set().insert(all[i]),
{
    let a = all.take(i + 1);
    let b = all.take(i);
    assert forall|x: Seq<char>| a.to_set().contains(x) <==> b.to_set().insert(all[i]).contains(
        x,
    ) by {
        if a.contains(x) {
            let k = choose|k: int| 0 <= k < a.len() && a[k] == x;
            if k < i {
                assert(b[k] == x);
            }
        }
        if b.contains(x) {
            let k = choose|k: int| 0 <= k < b.len() && b[k] == x;
            assert(a[k] == x);
        }
        assert(a[i] == all[i]);
    }
    assert(a.to_set() =~= b.to_set().insert(all[i]));
}

/// A map from strings, kept in ascending order of its keys.
pub struct TextMap<V> {
    keys: Vec<String>,
    values: Vec<V>,
}

/// The map with these keys and values.
pub open spec fn zip<V>(keys: Seq<Seq<char>>, values: Seq<V>) -> Map<Seq<char>, V> {
    Map::new(
        |k: Seq<char>| keys.contains(k),
        |k: Seq<char>| values[choose|i: int| 0 <= i < keys.len() && keys[i] == k],
    )
}

proof fn zip_at<V>(keys: Seq<Seq<char>>, values: Seq<V>, i: int)
    requires
        ascending(keys),
        keys.len() == values.len(),
        0 <= i < keys.len(),
    ensures
        zip(keys, values).contains_key(keys[i]),
        zip(keys, values)[keys[i]] == values[i],
{
    let j = choose|j: int| 0 <= j < keys.len() && keys[j] == keys[i];
    assert(keys.contains(keys[i]));
    precedes_is_total(keys[i], keys[j]);
    if i < j {
        assert(precedes(keys[i], keys[j]));
    } else if j < i {
        assert(precedes(keys[j], keys[i]));
    }
}

impl<V> View for TextMap<V> {
    type V = Map<Seq<char>, V>;

    closed spec fn view(&self) -> Map<Seq<char>, V> {
        zip(views(self.keys@), self.values@)
    }
}

impl<V> TextMap<V> {
    /// The keys stand in ascending order, each with its value.
    pub closed spec fn wf(&self) -> bool {
        ascending(views(self.keys@)) && self.keys@.len() == self.values@.len()
    }

    /// The keys in order.
    pub closed spec fn key_list(&self) -> Seq<Seq<char>> {
        views(self.keys@)
    }

    /// An empty map.
    pub fn new() -> (r: TextMap<V>)
        ensures
            r.wf(),
            r@ == Map::<Seq<char>, V>::empty(),
    {
        let r: TextMap<V> = TextMap { keys: Vec::new(), values: Vec::new() };
        assert(r@ =~= Map::<Seq<char>, V>::empty());
        r
    }

    /// The number of keys.
    pub fn len(&self) -> (r: usize)
        requires
            self.wf(),
        ensures
            r == self.key_list().len(),
            r == 0 <==> self@ == Map::<Seq<char>, V>::empty(),
    {
        proof {
            if self.keys@.len() > 0 {
                zip_at(views(self.keys@), self.values@, 0);
            } else {
                assert(self@ =~= Map::<Seq<char>, V>::empty());
            }
        }
        self.keys.len()
    }

    /// The keys, in ascending order.
    pub fn keys(&self) -> (r: &Vec<String>)
        requires
            self.wf(),
        ensures
            views(r@) == self.key_list(),
            ascending(views(r@)),
            forall|k: Seq<char>| #[trigger] views(r@).contains(k) <==> self@.contains_key(k),
    {
        &self.keys
    }

    /// The value of a key.
    pub fn get(&self, key: &str) -> (r: Option<&V>)
        requires
            self.wf(),
        ensures
            match r {
                Some(v) => self@.contains_key(key@) && self@[key@] == *v,
                None => !self@.contains_key(key@),
            },
    {
        let (at, present) = find(&self.keys, key);
        if present {
            proof {
                zip_at(views(self.keys@), self.values@, at as int);
            }
            Some(&self.values[at])
        } else {
            None
        }
    }

    /// Whether a key is present.
    pub fn contains(&self, key: &str) -> (r: bool)
        requires
            self.wf(),
        ensures
            r == self@.contains_key(key@),
    {
        find(&self.keys, key).1
    }

    /// Sets the value of a key.
    pub fn insert(&mut self, key: &str, value: V)
        requires
            old(self).wf(),
        ensures
            final(self).wf(),
            final(self)@ == old(self)@.insert(key@, value),
    {
        let (at, present) = find(&self.keys, key);
        let ghost keys = views(self.keys@);
        let ghost values = self.values@;
        if present {
            self.values.set(at, value);
            proof {
                assert forall|k: Seq<char>| #[trigger] self@.contains_key(k) implies self@[k] == zip(
                    keys,
                    values,
                ).insert(key@, value)[k] by {
                    let i = choose|i: int| 0 <= i < keys.len() && keys[i] == k;
                    zip_at(keys, values, i);
                    zip_at(keys, self.values@, i);
                    zip_at(keys, self.values@, at as int);
                }
                assert(self@ =~= zip(keys, values).insert(key@, value));
            }
        } else {
            proof {
                assert forall|j: int| 0 <= j < at implies precedes(#[trigger] keys[j], key@) by {
                    assert(precedes(self.keys@[j]@, key@));
                }
                assert forall|j: int| at <= j < keys.len() implies precedes(
                    key@,
                    #[trigger] keys[j],
                ) by {
                    assert(precedes(key@, self.keys@[j]@));
                }
                insert_keeps_ascending(keys, at as int, key@);
            }
            self.keys.insert(at, key.to_owned());
            self.values.insert(at, value);
            proof {
                let keys2 = views(self.keys@);
                assert(keys2 =~= keys.insert(at as int, key@));
                assert forall|k: Seq<char>| #[trigger] self@.contains_key(k) <==> zip(
                    keys,
                    values,
                ).insert(key@, value).contains_key(k) by {
                    assert(keys2.to_set().contains(k) <==> keys.to_set().insert(key@).contains(k));
                }
                assert forall|k: Seq<char>| #[trigger] self@.contains_key(k) implies self@[k] == zip(
                    keys,
                    values,
                ).insert(key@, value)[k] by {
                    let i = choose|i: int| 0 <= i < keys2.len() && keys2[i] == k;
                    zip_at(keys2, self.values@, i);
                    if i == at {
                    } else if i < at {
                        zip_at(keys, values, i);
                        precedes_is_total(k, key@);
                    } else {
                        zip_at(keys, values, i - 1);
                        precedes_is_total(k, key@);
                    }
                }
                assert(self@ =~= zip(keys, values).insert(key@, value));
            }
        }
    }

    /// Takes a key out, with its value.
    pub fn remove(&mut self, key: &str) -> (r: Option<V>)
        requires
            old(self).wf(),
        ensures
            final(self).wf(),
            final(self)@ == old(self)@.remove(key@),
            match r {
                Some(v) => old(self)@.contains_key(key@) && old(self)@[key@] == v,
                None => !old(self)@.contains_key(key@),
            },
    {
        let (at, present) = find(&self.keys, key);
        let ghost keys = views(self.keys@);
        let ghost values = self.values@;
        if !present {
            assert(self@.remove(key@) =~= self@);
            return None;
        }
        proof {
            zip_at(keys, values, at as int);
        }
        let _ = self.keys.remove(at);
        let value = self.values.remove(at);
        proof {
            let keys2 = views(self.keys@);
            assert(keys2 =~= keys.remove(at as int));
            assert forall|i: int, j: int| 0 <= i < j < keys2.len() implies precedes(
                #[trigger] keys2[i],
                #[trigger] keys2[j],
            ) by {
                let p = if i < at {
                    i
                } else {
                    i + 1
                };
                let q = if j < at {
                    j
                } else {
                    j + 1
                };
                assert(precedes(keys[p], keys[q]));
            }
            assert forall|k: Seq<char>| #[trigger] self@.contains_key(k) <==> zip(
                keys,
                values,
            ).remove(key@).contains_key(k) by {
                if keys2.contains(k) {
                    let i = choose|i: int| 0 <= i < keys2.len() && keys2[i] == k;
                    let p = if i < at {
                        i
                    } else {
                        i + 1
                    };
                    assert(keys[p] == k);
                    precedes_is_total(k, key@);
                    if p < at {
                        assert(precedes(keys[p], keys[at as int]));
                    } else {
                        assert(precedes(keys[at as int], keys[p]));
                    }
                }
                if keys.contains(k) && k != key@ {
                    let p = choose|p: int| 0 <= p < keys.len() && keys[p] == k;
                    if p < at {
                        assert(keys2[p] == k);
                    } else {
                        assert(keys2[p - 1] == k);
                    }
                }
            }
            assert forall|k: Seq<char>| #[trigger] self@.contains_key(k) implies self@[k] == zip(
                keys,
                values,
            ).remove(key@)[k] by {
                let i = choose|i: int| 0 <= i < keys2.len() && keys2[i] == k;
                zip_at(keys2, self.values@, i);
                if i < at {
                    zip_at(keys, values, i);
                } else {
                    zip_at(keys, values, i + 1);
                }
            }
            assert(self@ =~= zip(keys, values).remove(key@));
        }
        Some(value)
    }
}

} // verus!
