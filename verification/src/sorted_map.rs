//! Maps from strings that are walked in the order of their keys.

use vstd::prelude::*;
use crate::text;

verus! {

/// The order of strings: by their first different character, and a string before
/// its extensions.
pub open spec fn text_less(a: Seq<char>, b: Seq<char>) -> bool
    decreases a.len(),
{
    if b.len() == 0 {
        false
    } else if a.len() == 0 {
        true
    } else if a[0] != b[0] {
        (a[0] as int) < (b[0] as int)
    } else {
        text_less(a.drop_first(), b.drop_first())
    }
}

/// No string comes before itself.
pub proof fn lemma_irreflexive(a: Seq<char>)
    ensures
        !text_less(a, a),
    decreases a.len(),
{
    if a.len() > 0 {
        lemma_irreflexive(a.drop_first());
    }
}

pub proof fn lemma_transitive(a: Seq<char>, b: Seq<char>, c: Seq<char>)
    requires
        text_less(a, b),
        text_less(b, c),
    ensures
        text_less(a, c),
    decreases a.len(),
{
    if a.len() > 0 && a[0] == b[0] && b[0] == c[0] {
        lemma_transitive(a.drop_first(), b.drop_first(), c.drop_first());
    }
}

/// Of two different strings one comes first.
pub proof fn lemma_total(a: Seq<char>, b: Seq<char>)
    ensures
        a == b || text_less(a, b) || text_less(b, a),
    decreases a.len(),
{
    if a.len() > 0 && b.len() > 0 && a[0] == b[0] {
        lemma_total(a.drop_first(), b.drop_first());
        if a.drop_first() == b.drop_first() {
            assert(a == seq![a[0]] + a.drop_first());
            assert(b == seq![b[0]] + b.drop_first());
        }
    } else if a.len() == 0 && b.len() == 0 {
        assert(a == b);
    }
}

/// Whether `a` comes before `b`.
pub fn less(a: &str, b: &str) -> (r: bool)
    ensures
        r == text_less(a@, b@),
{
    let u = text::chars_of(a);
    let v = text::chars_of(b);
    let mut i: usize = 0;
    assert(a@.subrange(0, a@.len() as int) == a@);
    assert(b@.subrange(0, b@.len() as int) == b@);
    while i < u.len() && i < v.len() && u[i] == v[i]
        invariant
            u@ == a@,
            v@ == b@,
            i <= u@.len(),
            i <= v@.len(),
            text_less(a@, b@) == text_less(
                a@.subrange(i as int, a@.len() as int),
                b@.subrange(i as int, b@.len() as int),
            ),
        decreases u@.len() - i,
    {
        assert(a@.subrange(i as int, a@.len() as int).drop_first() == a@.subrange(
            i + 1,
            a@.len() as int,
        ));
        assert(b@.subrange(i as int, b@.len() as int).drop_first() == b@.subrange(
            i + 1,
            b@.len() as int,
        ));
        i += 1;
    }
    if i >= v.len() {
        false
    } else if i >= u.len() {
        true
    } else {
        u[i] < v[i]
    }
}

/// A map from strings, its keys in order.
#[derive(Debug, PartialEq, Eq)]
pub struct SortedMap<V> {
    keys: Vec<String>,
    values: Vec<V>,
}

/// Whether each key comes before the next.
pub open spec fn ascending(keys: Seq<Seq<char>>) -> bool {
    forall|i: int, j: int| 0 <= i < j < keys.len() ==> text_less(#[trigger] keys[i], #[trigger] keys[j])
}

/// The entry of a key in a list of keys and a list of values.
pub open spec fn entry<V>(keys: Seq<Seq<char>>, values: Seq<V>, key: Seq<char>) -> Option<V> {
    if keys.contains(key) {
        Some(values[keys.index_of(key)])
    } else {
        None
    }
}

proof fn lemma_unique(keys: Seq<Seq<char>>, i: int, j: int)
    requires
        ascending(keys),
        0 <= i < keys.len(),
        0 <= j < keys.len(),
        keys[i] == keys[j],
    ensures
        i == j,
{
    lemma_irreflexive(keys[i]);
}

pub proof fn lemma_entry_at<V>(keys: Seq<Seq<char>>, values: Seq<V>, i: int)
    requires
        ascending(keys),
        keys.len() == values.len(),
        0 <= i < keys.len(),
    ensures
        entry(keys, values, keys[i]) == Some(values[i]),
{
    assert(keys.contains(keys[i]));
    lemma_unique(keys, i, keys.index_of(keys[i]));
}

/// The order is decided at the first difference.
pub proof fn lemma_less_at(a: Seq<char>, b: Seq<char>, i: int)
    requires
        0 <= i < a.len(),
        i < b.len(),
        a.take(i) == b.take(i),
        (a[i] as int) < (b[i] as int),
    ensures
        text_less(a, b),
    decreases i,
{
    if i > 0 {
        let u = a.drop_first();
        let v = b.drop_first();
        assert(a.take(i)[0] == a[0] && b.take(i)[0] == b[0]);
        assert(u.take(i - 1) == a.take(i).drop_first());
        assert(v.take(i - 1) == b.take(i).drop_first());
        lemma_less_at(u, v, i - 1);
    }
}

proof fn lemma_before_last(keys: Seq<Seq<char>>, k: Seq<char>)
    requires
        ascending(keys),
        keys.len() > 0,
    ensures
        keys.drop_last().contains(k) <==> keys.contains(k) && k != keys.last(),
        ascending(keys.drop_last()),
{
    let head = keys.drop_last();
    if head.contains(k) {
        let i = head.index_of(k);
        assert(keys[i] == k);
        lemma_irreflexive(k);
    }
    if keys.contains(k) && k != keys.last() {
        let i = keys.index_of(k);
        assert(head[i] == k);
    }
}

/// Keys in order are determined by which keys they are.
pub proof fn lemma_same_keys(a: Seq<Seq<char>>, b: Seq<Seq<char>>)
    requires
        ascending(a),
        ascending(b),
        forall|k: Seq<char>| #[trigger] a.contains(k) <==> b.contains(k),
    ensures
        a == b,
    decreases a.len(),
{
    if a.len() == 0 {
        if b.len() > 0 {
            assert(b.contains(b[0]));
            assert(a.contains(b[0]));
        }
        assert(a == b);
    } else {
        let x = a.last();
        assert(a.contains(x)) by {
            assert(a[a.len() - 1] == x);
        }
        let j = b.index_of(x);
        let y = b.last();
        assert(b.contains(y)) by {
            assert(b[b.len() - 1] == y);
        }
        assert(a.contains(y));
        let i = a.index_of(y);
        if x != y {
            assert(text_less(a[i], a[a.len() - 1]));
            assert(text_less(b[j], b[b.len() - 1]));
            lemma_transitive(x, y, x);
            lemma_irreflexive(x);
        }
        assert forall|k: Seq<char>| #[trigger]
            a.drop_last().contains(k) <==> b.drop_last().contains(k) by {
            lemma_before_last(a, k);
            lemma_before_last(b, k);
            assert(a.contains(k) <==> b.contains(k));
        }
        lemma_before_last(a, x);
        lemma_before_last(b, x);
        lemma_same_keys(a.drop_last(), b.drop_last());
        assert(a == a.drop_last().push(x));
        assert(b == b.drop_last().push(y));
    }
}

impl<V> SortedMap<V> {
    pub closed spec fn spec_keys(self) -> Seq<Seq<char>> {
        text::views(self.keys@)
    }

    pub closed spec fn spec_values(self) -> Seq<V> {
        self.values@
    }

    /// The keys are in order, and each has a value.
    pub open spec fn wf(self) -> bool {
        &&& self.spec_keys().len() == self.spec_values().len()
        &&& ascending(self.spec_keys())
    }

    /// The value under a key.
    pub open spec fn at(self, key: Seq<char>) -> Option<V> {
        entry(self.spec_keys(), self.spec_values(), key)
    }

    pub fn new() -> (r: Self)
        ensures
            r.wf(),
            r.spec_keys() == Seq::<Seq<char>>::empty(),
            r.spec_values() == Seq::<V>::empty(),
    {
        SortedMap { keys: Vec::new(), values: Vec::new() }
    }

    pub fn len(&self) -> (r: usize)
        ensures
            r == self.spec_keys().len(),
    {
        self.keys.len()
    }

    /// The `i`-th key.
    pub fn key(&self, i: usize) -> (r: &str)
        requires
            i < self.spec_keys().len(),
        ensures
            r@ == self.spec_keys()[i as int],
    {
        self.keys[i].as_str()
    }

    /// The value of the `i`-th key.
    pub fn value(&self, i: usize) -> (r: &V)
        requires
            i < self.spec_values().len(),
        ensures
            *r == self.spec_values()[i as int],
    {
        &self.values[i]
    }

    /// The number of keys before the given one, and whether the key itself comes
    /// next.
    fn locate(&self, key: &str) -> (r: (usize, bool))
        requires
            self.wf(),
        ensures
            r.0 <= self.spec_keys().len(),
            forall|j: int| 0 <= j < r.0 ==> text_less(#[trigger] self.spec_keys()[j], key@),
            r.1 ==> r.0 < self.spec_keys().len() && self.spec_keys()[r.0 as int] == key@,
            !r.1 ==> forall|j: int|
                r.0 <= j < self.spec_keys().len() ==> text_less(
                    key@,
                    #[trigger] self.spec_keys()[j],
                ),
            r.1 == self.spec_keys().contains(key@),
    {
        let ghost keys = self.spec_keys();
        let mut i: usize = 0;
        while i < self.keys.len() && less(self.keys[i].as_str(), key)
            invariant
                self.wf(),
                keys == self.spec_keys(),
                i <= keys.len() == self.keys@.len(),
                forall|j: int| 0 <= j < i ==> text_less(#[trigger] keys[j], key@),
            decreases keys.len() - i,
        {
            i += 1;
        }
        let found = i < self.keys.len() && text::same(self.keys[i].as_str(), key);
        proof {
            if found {
                assert(keys[i as int] == key@);
            } else {
                assert forall|j: int| i <= j < keys.len() implies text_less(
                    key@,
                    #[trigger] keys[j],
                ) by {
                    lemma_total(keys[i as int], key@);
                    assert(keys[i as int] == self.keys@[i as int]@);
                    if j > i {
                        lemma_transitive(key@, keys[i as int], keys[j]);
                    }
                }
                if keys.contains(key@) {
                    let j = keys.index_of(key@);
                    lemma_irreflexive(key@);
                }
            }
        }
        (i, found)
    }

    /// The value under a key.
    pub fn get(&self, key: &str) -> (r: Option<&V>)
        requires
            self.wf(),
        ensures
            match r {
                Some(v) => self.at(key@) == Some(*v),
                None => self.at(key@) is None,
            },
    {
        let (i, found) = self.locate(key);
        if found {
            proof {
                lemma_entry_at(self.spec_keys(), self.spec_values(), i as int);
            }
            Some(&self.values[i])
        } else {
            None
        }
    }

    /// Puts a value under a key, in place of the one that was there.
    pub fn set(&mut self, key: String, value: V)
        requires
            old(self).wf(),
        ensures
            final(self).wf(),
            final(self).at(key@) == Some(value),
            forall|k: Seq<char>| k != key@ ==> #[trigger] final(self).at(k) == old(self).at(k),
            final(self).spec_keys().len() == old(self).spec_keys().len() + if old(self).at(
                key@,
            ) is Some {
                0int
            } else {
                1int
            },
    {
        let ghost keys = self.spec_keys();
        let ghost values = self.spec_values();
        let ghost name = key@;
        let (i, found) = self.locate(key.as_str());
        if found {
            self.values.set(i, value);
            proof {
                lemma_set_at(keys, values, i as int, value);
                assert(self.spec_keys() == keys);
                assert(self.spec_values() == values.update(i as int, value));
            }
        } else {
            self.keys.insert(i, key);
            self.values.insert(i, value);
            proof {
                assert(self.spec_keys() == keys.insert(i as int, name));
                assert(self.spec_values() == values.insert(i as int, value));
                lemma_insert_at(keys, values, i as int, name, value);
            }
        }
    }
}

proof fn lemma_set_at<V>(keys: Seq<Seq<char>>, values: Seq<V>, i: int, value: V)
    requires
        ascending(keys),
        keys.len() == values.len(),
        0 <= i < keys.len(),
    ensures
        entry(keys, values.update(i, value), keys[i]) == Some(value),
        forall|k: Seq<char>|
            k != keys[i] ==> #[trigger] entry(keys, values.update(i, value), k) == entry(
                keys,
                values,
                k,
            ),
{
    lemma_entry_at(keys, values.update(i, value), i);
    assert forall|k: Seq<char>| k != keys[i] implies #[trigger] entry(
        keys,
        values.update(i, value),
        k,
    ) == entry(keys, values, k) by {
        if keys.contains(k) {
            assert(keys[keys.index_of(k)] == k);
        }
    }
}

proof fn lemma_insert_at<V>(
    keys: Seq<Seq<char>>,
    values: Seq<V>,
    i: int,
    name: Seq<char>,
    value: V,
)
    requires
        ascending(keys),
        keys.len() == values.len(),
        0 <= i <= keys.len(),
        forall|j: int| 0 <= j < i ==> text_less(#[trigger] keys[j], name),
        forall|j: int| i <= j < keys.len() ==> text_less(name, #[trigger] keys[j]),
    ensures
        ascending(keys.insert(i, name)),
        entry(keys.insert(i, name), values.insert(i, value), name) == Some(value),
        forall|k: Seq<char>|
            k != name ==> #[trigger] entry(keys.insert(i, name), values.insert(i, value), k)
                == entry(keys, values, k),
{
    let ks = keys.insert(i, name);
    let vs = values.insert(i, value);
    assert forall|a: int, b: int| 0 <= a < b < ks.len() implies text_less(
        #[trigger] ks[a],
        #[trigger] ks[b],
    ) by {
        let oa = if a < i {
            a
        } else {
            a - 1
        };
        let ob = if b < i {
            b
        } else {
            b - 1
        };
        if a == i {
            assert(ks[b] == keys[b - 1]);
        } else if b == i {
            assert(ks[a] == keys[a]);
        } else {
            assert(ks[a] == keys[oa]);
            assert(ks[b] == keys[ob]);
        }
    }
    assert(ks[i] == name);
    lemma_entry_at(ks, vs, i);
    assert forall|k: Seq<char>| k != name implies #[trigger] entry(ks, vs, k) == entry(
        keys,
        values,
        k,
    ) by {
        if keys.contains(k) {
            let j = keys.index_of(k);
            assert(keys[j] == k);
            let n = if j < i {
                j
            } else {
                j + 1
            };
            assert(ks[n] == k);
            assert(vs[n] == values[j]);
            lemma_entry_at(ks, vs, n);
        } else if ks.contains(k) {
            let n = ks.index_of(k);
            assert(ks[n] == k);
            if n < i {
                assert(keys[n] == k);
            } else {
                assert(keys[n - 1] == k);
            }
        }
    }
}

impl SortedMap<u32> {
    /// A copy of the map.
    pub fn copy(&self) -> (r: Self)
        requires
            self.wf(),
        ensures
            r.wf(),
            r.spec_keys() == self.spec_keys(),
            r.spec_values() == self.spec_values(),
    {
        let keys = text::copy_list(&self.keys);
        let mut values: Vec<u32> = Vec::new();
        let mut i: usize = 0;
        while i < self.values.len()
            invariant
                i <= self.values@.len(),
                values@ == self.values@.take(i as int),
            decreases self.values@.len() - i,
        {
            values.push(self.values[i]);
            i += 1;
            assert(self.values@.take(i as int) == self.values@.take(i - 1).push(
                self.values@[i - 1],
            ));
        }
        assert(self.values@.take(self.values@.len() as int) == self.values@);
        SortedMap { keys, values }
    }
}

// ---------------------------------------------------------------------------
// Laws
// ---------------------------------------------------------------------------

/// Texts are ordered by the first character in which they differ, and a text stands
/// before every longer one that begins with it.
pub proof fn law_texts_are_ordered_by_their_first_difference(
    head: Seq<char>,
    a: Seq<char>,
    b: Seq<char>,
)
    ensures
        a.len() > 0 && b.len() > 0 && (a[0] as int) < (b[0] as int) ==> text_less(
            head + a,
            head + b,
        ) && !text_less(head + b, head + a),
        a.len() > 0 ==> text_less(head, head + a) && !text_less(head + a, head),
        !text_less(head, head),
    decreases head.len(),
{
    if head.len() > 0 {
        let rest = head.drop_first();
        law_texts_are_ordered_by_their_first_difference(rest, a, b);
        assert((head + a).drop_first() =~= rest + a);
        assert((head + b).drop_first() =~= rest + b);
        assert((head + a)[0] == head[0]);
        assert((head + b)[0] == head[0]);
    } else {
        assert(head + a =~= a);
        assert(head + b =~= b);
    }
}

/// A map gives back under each key what stands beside it, and nothing under any other.
pub proof fn law_entries_are_found_under_their_key<V>(
    keys: Seq<Seq<char>>,
    values: Seq<V>,
    i: int,
    other: Seq<char>,
)
    requires
        ascending(keys),
        keys.len() == values.len(),
        0 <= i < keys.len(),
    ensures
        entry(keys, values, keys[i]) == Some(values[i]),
        !keys.contains(other) ==> entry(keys, values, other) is None,
{
    lemma_entry_at(keys, values, i);
}

} // verus!
