use vstd::prelude::*;

verus! {

/// No two elements of `s` have the same key.
pub open spec fn keys_unique<T>(s: Seq<T>, key: spec_fn(T) -> Seq<char>) -> bool {
    forall|i: int, j: int|
        0 <= i < s.len() && 0 <= j < s.len() && i != j ==> #[trigger] key(s[i]) != #[trigger] key(
            s[j],
        )
}

/// The elements of `s` by key; a later element wins over an earlier one with its key.
pub open spec fn keyed<T>(s: Seq<T>, key: spec_fn(T) -> Seq<char>) -> Map<Seq<char>, T>
    decreases s.len(),
{
    if s.len() == 0 {
        Map::empty()
    } else {
        keyed(s.drop_last(), key).insert(key(s.last()), s.last())
    }
}

pub proof fn lemma_keyed_push<T>(s: Seq<T>, key: spec_fn(T) -> Seq<char>, x: T)
    ensures
        keyed(s.push(x), key) == keyed(s, key).insert(key(x), x),
{
    assert(s.push(x).drop_last() =~= s);
}

pub proof fn lemma_keyed_dom<T>(s: Seq<T>, key: spec_fn(T) -> Seq<char>, k: Seq<char>)
    ensures
        keyed(s, key).contains_key(k) <==> exists|i: int| 0 <= i < s.len() && key(s[i]) == k,
    decreases s.len(),
{
    if s.len() > 0 {
        lemma_keyed_dom(s.drop_last(), key, k);
        if keyed(s, key).contains_key(k) && key(s.last()) != k {
            let i = choose|i: int| 0 <= i < s.drop_last().len() && key(s.drop_last()[i]) == k;
            assert(key(s[i]) == k);
        }
        if exists|i: int| 0 <= i < s.len() && key(s[i]) == k {
            let i = choose|i: int| 0 <= i < s.len() && key(s[i]) == k;
            if i < s.len() - 1 {
                assert(key(s.drop_last()[i]) == k);
            }
        }
    }
}

pub proof fn lemma_keyed_value<T>(s: Seq<T>, key: spec_fn(T) -> Seq<char>, i: int)
    requires
        keys_unique(s, key),
        0 <= i < s.len(),
    ensures
        keyed(s, key).contains_key(key(s[i])),
        keyed(s, key)[key(s[i])] == s[i],
    decreases s.len(),
{
    if i < s.len() - 1 {
        let d = s.drop_last();
        assert(d[i] == s[i]);
        assert(keys_unique(d, key)) by {
            assert forall|a: int, b: int|
                0 <= a < d.len() && 0 <= b < d.len() && a != b implies #[trigger] key(d[a])
                != #[trigger] key(d[b]) by {
                assert(d[a] == s[a] && d[b] == s[b]);
            }
        }
        lemma_keyed_value(d, key, i);
        assert(key(s[i]) != key(s[s.len() - 1]));
    }
}

pub proof fn lemma_unique_drop_last<T>(s: Seq<T>, key: spec_fn(T) -> Seq<char>)
    requires
        keys_unique(s, key),
        s.len() > 0,
    ensures
        keys_unique(s.drop_last(), key),
{
    let d = s.drop_last();
    assert forall|a: int, b: int|
        0 <= a < d.len() && 0 <= b < d.len() && a != b implies #[trigger] key(d[a])
        != #[trigger] key(d[b]) by {
        assert(d[a] == s[a] && d[b] == s[b]);
    }
}

pub proof fn lemma_keyed_update<T>(s: Seq<T>, key: spec_fn(T) -> Seq<char>, i: int, x: T)
    requires
        keys_unique(s, key),
        0 <= i < s.len(),
        key(x) == key(s[i]),
    ensures
        keyed(s.update(i, x), key) =~= keyed(s, key).insert(key(x), x),
        keys_unique(s.update(i, x), key),
    decreases s.len(),
{
    let u = s.update(i, x);
    assert forall|a: int, b: int|
        0 <= a < u.len() && 0 <= b < u.len() && a != b implies #[trigger] key(u[a])
        != #[trigger] key(u[b]) by {
        if a != i {
            assert(u[a] == s[a]);
        }
        if b != i {
            assert(u[b] == s[b]);
        }
    }
    if i == s.len() - 1 {
        assert(u.drop_last() =~= s.drop_last());
    } else {
        lemma_unique_drop_last(s, key);
        assert(u.drop_last() =~= s.drop_last().update(i, x));
        lemma_keyed_update(s.drop_last(), key, i, x);
        assert(key(s.last()) != key(s[i]));
    }
}

pub proof fn lemma_keyed_remove<T>(s: Seq<T>, key: spec_fn(T) -> Seq<char>, i: int)
    requires
        keys_unique(s, key),
        0 <= i < s.len(),
    ensures
        keyed(s.remove(i), key) =~= keyed(s, key).remove(key(s[i])),
        keys_unique(s.remove(i), key),
    decreases s.len(),
{
    let r = s.remove(i);
    assert forall|a: int, b: int|
        0 <= a < r.len() && 0 <= b < r.len() && a != b implies #[trigger] key(r[a])
        != #[trigger] key(r[b]) by {
        let sa = if a < i { a } else { a + 1 };
        let sb = if b < i { b } else { b + 1 };
        assert(r[a] == s[sa] && r[b] == s[sb]);
    }
    if i == s.len() - 1 {
        assert(r =~= s.drop_last());
        lemma_unique_drop_last(s, key);
        assert(!keyed(s.drop_last(), key).contains_key(key(s[i]))) by {
            lemma_keyed_dom(s.drop_last(), key, key(s[i]));
            if exists|j: int| 0 <= j < s.drop_last().len() && key(s.drop_last()[j]) == key(s[i]) {
                let j = choose|j: int|
                    0 <= j < s.drop_last().len() && key(s.drop_last()[j]) == key(s[i]);
                assert(s.drop_last()[j] == s[j]);
            }
        }
    } else {
        lemma_unique_drop_last(s, key);
        assert(r.drop_last() =~= s.drop_last().remove(i));
        assert(r.last() == s.last());
        lemma_keyed_remove(s.drop_last(), key, i);
        assert(key(s.last()) != key(s[i]));
    }
}

/// Keys that no element of `s` carries stay unique after `x` is appended.
pub proof fn lemma_unique_push<T>(s: Seq<T>, key: spec_fn(T) -> Seq<char>, x: T)
    requires
        keys_unique(s, key),
        !keyed(s, key).contains_key(key(x)),
    ensures
        keys_unique(s.push(x), key),
{
    lemma_keyed_dom(s, key, key(x));
    let p = s.push(x);
    assert forall|a: int, b: int|
        0 <= a < p.len() && 0 <= b < p.len() && a != b implies #[trigger] key(p[a])
        != #[trigger] key(p[b]) by {
        if a < s.len() {
            assert(p[a] == s[a]);
        }
        if b < s.len() {
            assert(p[b] == s[b]);
        }
    }
}

/// Keeping the elements that satisfy `p` keeps the others' keys unique and restricts
/// the map to the keys whose element satisfies `p`.
pub proof fn lemma_keyed_filter<T>(s: Seq<T>, key: spec_fn(T) -> Seq<char>, p: spec_fn(T) -> bool)
    requires
        keys_unique(s, key),
    ensures
        keys_unique(s.filter(p), key),
        forall|k: Seq<char>|
            #[trigger] keyed(s.filter(p), key).contains_key(k) <==> keyed(s, key).contains_key(k)
                && p(keyed(s, key)[k]),
        forall|k: Seq<char>|
            #[trigger] keyed(s.filter(p), key).contains_key(k) ==> keyed(s.filter(p), key)[k]
                == keyed(s, key)[k],
    decreases s.len(),
{
    reveal(Seq::filter);
    if s.len() > 0 {
        let d = s.drop_last();
        lemma_unique_drop_last(s, key);
        lemma_keyed_filter(d, key, p);
        assert(s =~= d.push(s.last()));
        d.lemma_filter_push(s.last(), p);
        lemma_keyed_dom(d, key, key(s.last()));
        assert(!keyed(d, key).contains_key(key(s.last()))) by {
            if exists|j: int| 0 <= j < d.len() && key(d[j]) == key(s.last()) {
                let j = choose|j: int| 0 <= j < d.len() && key(d[j]) == key(s.last());
                assert(d[j] == s[j]);
            }
        }
        if p(s.last()) {
            lemma_unique_push(d.filter(p), key, s.last());
            lemma_keyed_push(d.filter(p), key, s.last());
        }
    }
}

} // verus!
