//! The mathematical model shared by the path-keyed tables of this crate:
//! a sequence of `(key, value)` pairs with pairwise-distinct keys, looked
//! up, replaced and removed by key.

use vstd::prelude::*;

verus! {

/// The value at `k`: the first pair whose key is `k`, if any.
pub open spec fn kv_find<V>(s: Seq<(Seq<char>, V)>, k: Seq<char>) -> Option<V>
    decreases s.len(),
{
    if s.len() == 0 {
        None
    } else if s[0].0 == k {
        Some(s[0].1)
    } else {
        kv_find(s.drop_first(), k)
    }
}

/// Pairwise-distinct keys.
pub open spec fn kv_uniq<V>(s: Seq<(Seq<char>, V)>) -> bool
    decreases s.len(),
{
    s.len() == 0 || (kv_find(s.drop_first(), s[0].0) is None && kv_uniq(s.drop_first()))
}

/// `s` with the pair at `k` replaced by `(k, v)` in place, or `(k, v)`
/// appended when `k` is absent.
pub open spec fn kv_upsert<V>(s: Seq<(Seq<char>, V)>, k: Seq<char>, v: V) -> Seq<(Seq<char>, V)>
    decreases s.len(),
{
    if s.len() == 0 {
        seq![(k, v)]
    } else if s[0].0 == k {
        seq![(k, v)] + s.drop_first()
    } else {
        seq![s[0]] + kv_upsert(s.drop_first(), k, v)
    }
}

/// `s` with the first pair at `k` removed, if any.
pub open spec fn kv_remove<V>(s: Seq<(Seq<char>, V)>, k: Seq<char>) -> Seq<(Seq<char>, V)>
    decreases s.len(),
{
    if s.len() == 0 {
        s
    } else if s[0].0 == k {
        s.drop_first()
    } else {
        seq![s[0]] + kv_remove(s.drop_first(), k)
    }
}

/// When the first pair keyed `k` stands at `i`, upserting `k` updates `i`.
pub proof fn lemma_kv_upsert_found<V>(s: Seq<(Seq<char>, V)>, i: int, k: Seq<char>, v: V)
    requires
        0 <= i < s.len(),
        s[i].0 == k,
        forall|j: int| 0 <= j < i ==> (#[trigger] s[j]).0 != k,
    ensures
        kv_upsert(s, k, v) == s.update(i, (k, v)),
    decreases i,
{
    if i == 0 {
        assert(kv_upsert(s, k, v) =~= s.update(0, (k, v)));
    } else {
        let t = s.drop_first();
        assert(forall|j: int| 0 <= j < i - 1 ==> (#[trigger] t[j]).0 == s[j + 1].0);
        lemma_kv_upsert_found(t, i - 1, k, v);
        assert(kv_upsert(s, k, v) =~= s.update(i, (k, v)));
    }
}

/// When `k` is absent, upserting appends.
pub proof fn lemma_kv_upsert_absent<V>(s: Seq<(Seq<char>, V)>, k: Seq<char>, v: V)
    requires
        forall|j: int| 0 <= j < s.len() ==> (#[trigger] s[j]).0 != k,
    ensures
        kv_upsert(s, k, v) == s.push((k, v)),
    decreases s.len(),
{
    if s.len() == 0 {
        assert(kv_upsert(s, k, v) =~= s.push((k, v)));
    } else {
        let t = s.drop_first();
        assert(forall|j: int| 0 <= j < t.len() ==> (#[trigger] t[j]).0 == s[j + 1].0);
        lemma_kv_upsert_absent(t, k, v);
        assert(kv_upsert(s, k, v) =~= s.push((k, v)));
    }
}

/// When the first pair keyed `k` stands at `i`, removing `k` removes `i`.
pub proof fn lemma_kv_remove_found<V>(s: Seq<(Seq<char>, V)>, i: int, k: Seq<char>)
    requires
        0 <= i < s.len(),
        s[i].0 == k,
        forall|j: int| 0 <= j < i ==> (#[trigger] s[j]).0 != k,
    ensures
        kv_remove(s, k) == s.remove(i),
    decreases i,
{
    if i == 0 {
        assert(kv_remove(s, k) =~= s.remove(0));
    } else {
        let t = s.drop_first();
        assert(forall|j: int| 0 <= j < i - 1 ==> (#[trigger] t[j]).0 == s[j + 1].0);
        lemma_kv_remove_found(t, i - 1, k);
        assert(kv_remove(s, k) =~= s.remove(i));
    }
}

/// When `k` is absent, removing changes nothing.
pub proof fn lemma_kv_remove_absent<V>(s: Seq<(Seq<char>, V)>, k: Seq<char>)
    requires
        forall|j: int| 0 <= j < s.len() ==> (#[trigger] s[j]).0 != k,
    ensures
        kv_remove(s, k) == s,
    decreases s.len(),
{
    if s.len() == 0 {
    } else {
        let t = s.drop_first();
        assert(forall|j: int| 0 <= j < t.len() ==> (#[trigger] t[j]).0 == s[j + 1].0);
        lemma_kv_remove_absent(t, k);
        assert(kv_remove(s, k) =~= s);
    }
}

/// What a lookup sees after an upsert.
pub proof fn lemma_kv_find_upsert<V>(s: Seq<(Seq<char>, V)>, k: Seq<char>, v: V, q: Seq<char>)
    ensures
        kv_find(kv_upsert(s, k, v), q) == if q == k {
            Some(v)
        } else {
            kv_find(s, q)
        },
    decreases s.len(),
{
    let u = kv_upsert(s, k, v);
    if s.len() == 0 {
        assert(u[0] == (k, v));
        assert(u.drop_first() =~= Seq::<(Seq<char>, V)>::empty());
        assert(kv_find(u.drop_first(), q) is None);
    } else if s[0].0 == k {
        assert(u[0] == (k, v));
        assert(u.drop_first() =~= s.drop_first());
    } else {
        lemma_kv_find_upsert(s.drop_first(), k, v, q);
        assert(u[0] == s[0]);
        assert(u.drop_first() =~= kv_upsert(s.drop_first(), k, v));
    }
}

/// What a lookup sees after a removal, given distinct keys.
pub proof fn lemma_kv_find_remove<V>(s: Seq<(Seq<char>, V)>, k: Seq<char>, q: Seq<char>)
    requires
        kv_uniq(s),
    ensures
        kv_find(kv_remove(s, k), q) == if q == k {
            None
        } else {
            kv_find(s, q)
        },
    decreases s.len(),
{
    if s.len() == 0 {
    } else if s[0].0 == k {
    } else {
        lemma_kv_find_remove(s.drop_first(), k, q);
        assert(kv_remove(s, k).drop_first() =~= kv_remove(s.drop_first(), k));
    }
}

/// Upserting keeps the keys distinct.
pub proof fn lemma_kv_uniq_upsert<V>(s: Seq<(Seq<char>, V)>, k: Seq<char>, v: V)
    requires
        kv_uniq(s),
    ensures
        kv_uniq(kv_upsert(s, k, v)),
    decreases s.len(),
{
    let u = kv_upsert(s, k, v);
    if s.len() == 0 {
        assert(u[0] == (k, v));
        assert(u.drop_first() =~= Seq::<(Seq<char>, V)>::empty());
        assert(kv_find(u.drop_first(), k) is None);
        assert(kv_uniq(u.drop_first()));
    } else if s[0].0 == k {
        assert(u[0] == (k, v));
        assert(u.drop_first() =~= s.drop_first());
    } else {
        lemma_kv_uniq_upsert(s.drop_first(), k, v);
        lemma_kv_find_upsert(s.drop_first(), k, v, s[0].0);
        assert(u[0] == s[0]);
        assert(u.drop_first() =~= kv_upsert(s.drop_first(), k, v));
    }
}

/// Removing keeps the keys distinct.
pub proof fn lemma_kv_uniq_remove<V>(s: Seq<(Seq<char>, V)>, k: Seq<char>)
    requires
        kv_uniq(s),
    ensures
        kv_uniq(kv_remove(s, k)),
    decreases s.len(),
{
    if s.len() == 0 {
    } else if s[0].0 == k {
    } else {
        lemma_kv_uniq_remove(s.drop_first(), k);
        lemma_kv_find_remove(s.drop_first(), k, s[0].0);
        assert(kv_remove(s, k).drop_first() =~= kv_remove(s.drop_first(), k));
    }
}

/// A lookup that succeeds names some pair of the sequence.
pub proof fn lemma_kv_find_skip<V>(s: Seq<(Seq<char>, V)>, k: Seq<char>, i: int)
    requires
        0 <= i < s.len(),
        forall|j: int| 0 <= j < i ==> (#[trigger] s[j]).0 != k,
    ensures
        kv_find(s, k) == kv_find(s.skip(i), k),
    decreases i,
{
    if i == 0 {
        assert(s.skip(0) =~= s);
    } else {
        let t = s.drop_first();
        assert(forall|j: int| 0 <= j < i - 1 ==> (#[trigger] t[j]).0 == s[j + 1].0);
        lemma_kv_find_skip(t, k, i - 1);
        assert(t.skip(i - 1) =~= s.skip(i));
    }
}

/// A lookup over the whole sequence, characterized position by position:
/// absent keys match no pair at all.
pub proof fn lemma_kv_find_absent<V>(s: Seq<(Seq<char>, V)>, k: Seq<char>)
    requires
        forall|j: int| 0 <= j < s.len() ==> (#[trigger] s[j]).0 != k,
    ensures
        kv_find(s, k) is None,
    decreases s.len(),
{
    if s.len() > 0 {
        let t = s.drop_first();
        assert(forall|j: int| 0 <= j < t.len() ==> (#[trigger] t[j]).0 == s[j + 1].0);
        lemma_kv_find_absent(t, k);
    }
}

/// Removing takes out exactly the found pair, or nothing.
pub proof fn lemma_kv_remove_len<V>(s: Seq<(Seq<char>, V)>, k: Seq<char>)
    ensures
        kv_remove(s, k).len() == if kv_find(s, k) is Some {
            s.len() - 1
        } else {
            s.len() as int
        },
    decreases s.len(),
{
    if s.len() == 0 {
    } else if s[0].0 == k {
    } else {
        lemma_kv_remove_len(s.drop_first(), k);
    }
}

/// Upserting grows by one exactly when the key was absent.
pub proof fn lemma_kv_upsert_len<V>(s: Seq<(Seq<char>, V)>, k: Seq<char>, v: V)
    ensures
        kv_upsert(s, k, v).len() == if kv_find(s, k) is Some {
            s.len() as int
        } else {
            s.len() + 1int
        },
    decreases s.len(),
{
    if s.len() == 0 {
    } else if s[0].0 == k {
    } else {
        lemma_kv_upsert_len(s.drop_first(), k, v);
    }
}

/// A lookup that fails matches no pair at all.
pub proof fn lemma_kv_find_none<V>(s: Seq<(Seq<char>, V)>, k: Seq<char>)
    requires
        kv_find(s, k) is None,
    ensures
        forall|j: int| 0 <= j < s.len() ==> (#[trigger] s[j]).0 != k,
    decreases s.len(),
{
    if s.len() > 0 {
        let t = s.drop_first();
        lemma_kv_find_none(t, k);
        assert(forall|j: int| 1 <= j < s.len() ==> (#[trigger] s[j]).0 == t[j - 1].0);
    }
}

/// A lookup that succeeds names some pair.
pub proof fn lemma_kv_find_some_index<V>(s: Seq<(Seq<char>, V)>, k: Seq<char>)
    requires
        kv_find(s, k) is Some,
    ensures
        exists|i: int| 0 <= i < s.len() && (#[trigger] s[i]).0 == k,
    decreases s.len(),
{
    if s[0].0 == k {
        assert(s[0].0 == k);
    } else {
        let t = s.drop_first();
        lemma_kv_find_some_index(t, k);
        let i = choose|i: int| 0 <= i < t.len() && (#[trigger] t[i]).0 == k;
        assert(s[i + 1].0 == k);
    }
}

/// Distinct keys, stated pair by pair.
pub proof fn lemma_kv_uniq_pairwise<V>(s: Seq<(Seq<char>, V)>)
    requires
        kv_uniq(s),
    ensures
        forall|i: int, j: int|
            0 <= i < j < s.len() ==> (#[trigger] s[i]).0 != (#[trigger] s[j]).0,
    decreases s.len(),
{
    if s.len() > 0 {
        let t = s.drop_first();
        lemma_kv_uniq_pairwise(t);
        lemma_kv_find_none(t, s[0].0);
        assert(forall|j: int| 1 <= j < s.len() ==> (#[trigger] s[j]).0 == t[j - 1].0);
        assert forall|i: int, j: int|
            0 <= i < j < s.len() implies (#[trigger] s[i]).0 != (#[trigger] s[j]).0 by {
            if i == 0 {
                assert(t[j - 1].0 != s[0].0);
            } else {
                assert(t[i - 1].0 != t[j - 1].0);
            }
        }
    }
}

/// With distinct keys, looking a pair's own key up finds that pair.
pub proof fn lemma_kv_find_at_index<V>(s: Seq<(Seq<char>, V)>, i: int)
    requires
        kv_uniq(s),
        0 <= i < s.len(),
    ensures
        kv_find(s, s[i].0) == Some(s[i].1),
{
    lemma_kv_uniq_pairwise(s);
    lemma_kv_find_skip(s, s[i].0, i);
    assert(s.skip(i)[0] == s[i]);
}

/// Compares two strings character by character.
pub fn str_eq(a: &str, b: &str) -> (r: bool)
    ensures
        r == (a@ == b@),
{
    let na = a.unicode_len();
    let nb = b.unicode_len();
    if na != nb {
        return false;
    }
    let mut i: usize = 0;
    while i < na
        invariant
            na == a@.len(),
            na == b@.len(),
            i <= na,
            forall|j: int| 0 <= j < i ==> a@[j] == b@[j],
        decreases na - i,
    {
        if a.get_char(i) != b.get_char(i) {
            return false;
        }
        i = i + 1;
    }
    proof {
        assert(a@ =~= b@);
    }
    true
}

} // verus!
