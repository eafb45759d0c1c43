//! Ordered key-value storage for the normalized entity graphs.
//!
//! Each normalized entity carries a stable numeric identifier, unique within
//! a snapshot.  Snapshots keep their entities in a vector ordered strictly by
//! that identifier, which fixes both lookup results and enumeration order.

use vstd::prelude::*;

verus! {

/// A value identified by a numeric key.
pub trait IdKeyed: Sized {
    /// The identifying key.
    spec fn key(&self) -> int;

    /// Returns the identifying key.
    fn get_key(&self) -> (k: usize)
        ensures
            k == self.key(),
    ;
}

/// True when the keys of `s` are strictly increasing (so also unique).
pub open spec fn sorted_by_key<T: IdKeyed>(s: Seq<T>) -> bool {
    forall|i: int, j: int| 0 <= i < j < s.len() ==> s[i].key() < s[j].key()
}

/// True when some element of `s` has key `k`.
pub open spec fn has_key<T: IdKeyed>(s: Seq<T>, k: int) -> bool {
    exists|i: int| 0 <= i < s.len() && s[i].key() == k
}

/// `s` with `x` inserted in key order; an element with the same key is
/// replaced.
pub open spec fn insert_keyed<T: IdKeyed>(s: Seq<T>, x: T) -> Seq<T>
    decreases s.len(),
{
    if s.len() == 0 {
        seq![x]
    } else if x.key() < s[0].key() {
        seq![x] + s
    } else if x.key() == s[0].key() {
        seq![x] + s.drop_first()
    } else {
        seq![s[0]] + insert_keyed(s.drop_first(), x)
    }
}

/// `s` with the first element of key `k` removed.
pub open spec fn remove_keyed<T: IdKeyed>(s: Seq<T>, k: int) -> Seq<T>
    decreases s.len(),
{
    if s.len() == 0 {
        s
    } else if s[0].key() == k {
        s.drop_first()
    } else {
        seq![s[0]] + remove_keyed(s.drop_first(), k)
    }
}

/// The first element of `s` with key `k`.
pub open spec fn find_keyed<T: IdKeyed>(s: Seq<T>, k: int) -> Option<T>
    decreases s.len(),
{
    if s.len() == 0 {
        None
    } else if s[0].key() == k {
        Some(s[0])
    } else {
        find_keyed(s.drop_first(), k)
    }
}

/// `find_keyed` answers exactly the keys that occur.
pub proof fn lemma_find_keyed_has_key<T: IdKeyed>(s: Seq<T>, k: int)
    ensures
        find_keyed(s, k) is Some <==> has_key(s, k),
        find_keyed(s, k) matches Some(x) ==> x.key() == k && s.contains(x),
    decreases s.len(),
{
    if s.len() > 0 && s[0].key() != k {
        lemma_find_keyed_has_key(s.drop_first(), k);
        assert(forall|i: int|
            0 <= i < s.drop_first().len() ==> s.drop_first()[i] == #[trigger] s[i + 1]);
        if has_key(s, k) {
            let i = choose|i: int| 0 <= i < s.len() && s[i].key() == k;
            assert(s.drop_first()[i - 1].key() == k);
        }
        match find_keyed(s, k) {
            Some(x) => {
                assert(s.drop_first().contains(x));
                let i = choose|i: int| 0 <= i < s.drop_first().len() && s.drop_first()[i] == x;
                assert(s[i + 1] == x);
            },
            None => {},
        }
    }
}

/// Inserting keeps the order and rewrites exactly the inserted key.
pub proof fn lemma_insert_keyed<T: IdKeyed>(s: Seq<T>, x: T)
    requires
        sorted_by_key(s),
    ensures
        sorted_by_key(insert_keyed(s, x)),
        forall|k: int| k != x.key() ==> find_keyed(insert_keyed(s, x), k) == find_keyed(s, k),
        find_keyed(insert_keyed(s, x), x.key()) == Some(x),
    decreases s.len(),
{
    let t = insert_keyed(s, x);
    if s.len() == 0 {
        assert(t =~= seq![x]);
        assert forall|k: int| k != x.key() implies find_keyed(t, k) == find_keyed(s, k) by {
            assert(t[0] == x);
            assert(t.drop_first() =~= s);
        }
    } else if x.key() < s[0].key() {
        assert(t =~= seq![x] + s);
        assert(forall|i: int| 0 <= i < s.len() ==> #[trigger] t[i + 1] == s[i]);
        assert(t.drop_first() =~= s);
        assert forall|k: int| k != x.key() implies find_keyed(t, k) == find_keyed(s, k) by {
            assert(t[0] == x);
        }
    } else if x.key() == s[0].key() {
        assert(t =~= seq![x] + s.drop_first());
        assert(t.drop_first() =~= s.drop_first());
        assert(forall|i: int, j: int| 0 <= i < j < t.len() ==> t[i].key() < t[j].key()) by {
            assert(forall|i: int|
                1 <= i < t.len() ==> #[trigger] t[i].key() == s.drop_first()[i - 1].key());
        }
        assert forall|k: int| k != x.key() implies find_keyed(t, k) == find_keyed(s, k) by {
            assert(t[0] == x);
            assert(s[0].key() != k);
        }
    } else {
        let rest = s.drop_first();
        lemma_insert_keyed(rest, x);
        assert(t =~= seq![s[0]] + insert_keyed(rest, x));
        assert(t.drop_first() =~= insert_keyed(rest, x));
        assert(forall|i: int, j: int| 0 <= i < j < t.len() ==> t[i].key() < t[j].key()) by {
            let u = insert_keyed(rest, x);
            assert(forall|i: int| 1 <= i < t.len() ==> #[trigger] t[i].key() == u[i - 1].key());
            assert(forall|i: int| 0 <= i < u.len() ==> u[i].key() >= s[0].key() + 1) by {
                assert(forall|i: int| 0 <= i < u.len() ==> has_key(u, #[trigger] u[i].key()));
                assert(forall|k: int| has_key(u, k) ==> k == x.key() || has_key(rest, k)) by {
                    assert(forall|k: int|
                        k != x.key() ==> (find_keyed(u, k) == find_keyed(rest, k)));
                    assert(forall|k: int| #[trigger] has_key(u, k) ==> find_keyed(u, k) is Some)
                        by {
                        lemma_find_keyed_has_key(u, x.key());
                        assert forall|k: int| #[trigger] has_key(u, k) implies find_keyed(
                            u,
                            k,
                        ) is Some by {
                            lemma_find_keyed_has_key(u, k);
                        }
                    }
                    assert forall|k: int|
                        #[trigger] has_key(u, k) && k != x.key() implies has_key(rest, k) by {
                        lemma_find_keyed_has_key(u, k);
                        lemma_find_keyed_has_key(rest, k);
                    }
                }
                assert(forall|i: int|
                    0 <= i < rest.len() ==> #[trigger] rest[i].key() == s[i + 1].key());
            }
        }
        assert forall|k: int| k != x.key() implies find_keyed(t, k) == find_keyed(s, k) by {
            assert(t[0] == s[0]);
            assert(t.drop_first() =~= insert_keyed(rest, x));
            assert(find_keyed(insert_keyed(rest, x), k) == find_keyed(rest, k));
            if s[0].key() == k {
                assert(find_keyed(t, k) == Some(t[0]));
                assert(find_keyed(s, k) == Some(s[0]));
            } else {
                assert(find_keyed(t, k) == find_keyed(t.drop_first(), k));
                assert(find_keyed(s, k) == find_keyed(s.drop_first(), k));
            }
        }
        assert(find_keyed(t, x.key()) == Some(x)) by {
            assert(t[0] == s[0]);
            assert(t.drop_first() =~= insert_keyed(rest, x));
            assert(find_keyed(t, x.key()) == find_keyed(t.drop_first(), x.key()));
        }
    }
}

/// Inserting adds no element beyond `x` and what was already there.
pub proof fn lemma_insert_keyed_elements<T: IdKeyed>(s: Seq<T>, x: T, i: int)
    requires
        0 <= i < insert_keyed(s, x).len(),
    ensures
        insert_keyed(s, x)[i] == x || s.contains(insert_keyed(s, x)[i]),
    decreases s.len(),
{
    let t = insert_keyed(s, x);
    if s.len() == 0 {
        assert(t =~= seq![x]);
    } else if x.key() < s[0].key() {
        assert(t =~= seq![x] + s);
        if i > 0 {
            assert(t[i] == s[i - 1]);
        }
    } else if x.key() == s[0].key() {
        assert(t =~= seq![x] + s.drop_first());
        if i > 0 {
            assert(t[i] == s.drop_first()[i - 1]);
            assert(t[i] == s[i]);
        }
    } else {
        let rest = s.drop_first();
        assert(t =~= seq![s[0]] + insert_keyed(rest, x));
        if i == 0 {
            assert(s.contains(s[0]));
        } else {
            lemma_insert_keyed_elements(rest, x, i - 1);
            assert(t[i] == insert_keyed(rest, x)[i - 1]);
            if insert_keyed(rest, x)[i - 1] != x {
                let j = choose|j: int| 0 <= j < rest.len() && rest[j] == insert_keyed(
                    rest,
                    x,
                )[i - 1];
                assert(s[j + 1] == rest[j]);
            }
        }
    }
}

/// Removing keeps the order, erases exactly the removed key, and keeps every
/// other key's entry.
pub proof fn lemma_remove_keyed<T: IdKeyed>(s: Seq<T>, k: int)
    requires
        sorted_by_key(s),
    ensures
        sorted_by_key(remove_keyed(s, k)),
        find_keyed(remove_keyed(s, k), k) is None,
        forall|j: int| j != k ==> find_keyed(remove_keyed(s, k), j) == find_keyed(s, j),
    decreases s.len(),
{
    let t = remove_keyed(s, k);
    if s.len() == 0 {
    } else if s[0].key() == k {
        assert(t =~= s.drop_first());
        assert(find_keyed(t, k) is None) by {
            lemma_find_keyed_has_key(s.drop_first(), k);
            if has_key(s.drop_first(), k) {
                let i = choose|i: int|
                    0 <= i < s.drop_first().len() && s.drop_first()[i].key() == k;
                assert(s[i + 1].key() == k);
            }
        }
    } else {
        let rest = s.drop_first();
        lemma_remove_keyed(rest, k);
        assert(t =~= seq![s[0]] + remove_keyed(rest, k));
        let u = remove_keyed(rest, k);
        assert(t[0] == s[0]);
        assert(t.drop_first() =~= u);
        assert(sorted_by_key(t)) by {
            assert(forall|i: int| 1 <= i < t.len() ==> #[trigger] t[i].key() == u[i - 1].key());
            assert(forall|i: int| 0 <= i < u.len() ==> u[i].key() > s[0].key()) by {
                assert(forall|i: int| 0 <= i < u.len() ==> has_key(u, #[trigger] u[i].key()));
                assert forall|j: int| #[trigger] has_key(u, j) implies has_key(rest, j) by {
                    lemma_find_keyed_has_key(u, j);
                    lemma_find_keyed_has_key(rest, j);
                    if j == k {
                        assert(find_keyed(u, j) is None);
                    }
                }
                assert(forall|i: int|
                    0 <= i < rest.len() ==> #[trigger] rest[i].key() == s[i + 1].key());
            }
        }
        assert forall|j: int| j != k implies find_keyed(t, j) == find_keyed(s, j) by {
            assert(find_keyed(u, j) == find_keyed(rest, j));
            if s[0].key() == j {
                assert(find_keyed(t, j) == Some(t[0]));
                assert(find_keyed(s, j) == Some(s[0]));
            } else {
                assert(find_keyed(t, j) == find_keyed(t.drop_first(), j));
                assert(find_keyed(s, j) == find_keyed(s.drop_first(), j));
            }
        }
        assert(find_keyed(t, k) is None) by {
            assert(find_keyed(t, k) == find_keyed(t.drop_first(), k));
        }
    }
}

/// Stepping one element to the right in a linear search.
proof fn lemma_find_keyed_skip_step<T: IdKeyed>(s: Seq<T>, k: int, i: int)
    requires
        0 <= i < s.len(),
        s[i].key() != k,
    ensures
        find_keyed(s.skip(i), k) == find_keyed(s.skip(i + 1), k),
{
    assert(s.skip(i)[0] == s[i]);
    assert(s.skip(i).drop_first() =~= s.skip(i + 1));
}

/// First element with key `k`, by linear search.
pub fn find_by_key<'a, T: IdKeyed>(v: &'a Vec<T>, k: usize) -> (r: Option<&'a T>)
    ensures
        r is Some <==> find_keyed(v@, k as int) is Some,
        r matches Some(x) ==> find_keyed(v@, k as int) == Some(*x),
{
    let n = v.len();
    assert(v@.skip(0) =~= v@);
    let mut i: usize = 0;
    while i < n
        invariant
            0 <= i <= n,
            n == v@.len(),
            find_keyed(v@, k as int) == find_keyed(v@.skip(i as int), k as int),
        decreases n - i,
    {
        if v[i].get_key() == k {
            assert(v@.skip(i as int)[0] == v@[i as int]);
            return Some(&v[i]);
        }
        proof {
            lemma_find_keyed_skip_step(v@, k as int, i as int);
        }
        i = i + 1;
    }
    assert(v@.skip(n as int) =~= Seq::<T>::empty());
    None
}

/// Where the first `i` keys are below `x.key()`, inserting lands at `i`.
proof fn lemma_insert_keyed_at<T: IdKeyed>(s: Seq<T>, x: T, i: int)
    requires
        0 <= i <= s.len(),
        forall|j: int| 0 <= j < i ==> s[j].key() < x.key(),
        i < s.len() ==> s[i].key() >= x.key(),
    ensures
        i < s.len() && s[i].key() == x.key() ==> insert_keyed(s, x) =~= s.take(i) + seq![x]
            + s.skip(i + 1),
        i == s.len() || s[i].key() > x.key() ==> insert_keyed(s, x) =~= s.take(i) + seq![x]
            + s.skip(i),
    decreases i,
{
    if i == 0 {
        if s.len() > 0 && s[0].key() == x.key() {
            assert(insert_keyed(s, x) == seq![x] + s.drop_first());
            assert(s.take(0) + seq![x] + s.skip(1) =~= seq![x] + s.drop_first());
        } else {
            assert(s.take(0) + seq![x] + s.skip(0) =~= seq![x] + s);
        }
    } else {
        let rest = s.drop_first();
        lemma_insert_keyed_at(rest, x, i - 1);
        assert(insert_keyed(s, x) == seq![s[0]] + insert_keyed(rest, x));
        assert(forall|j: int| 0 <= j < rest.len() ==> rest[j] == s[j + 1]);
        if i < s.len() && s[i].key() == x.key() {
            assert(insert_keyed(rest, x) =~= rest.take(i - 1) + seq![x] + rest.skip(i));
            assert(seq![s[0]] + (rest.take(i - 1) + seq![x] + rest.skip(i)) =~= s.take(i)
                + seq![x] + s.skip(i + 1));
        } else {
            assert(insert_keyed(rest, x) =~= rest.take(i - 1) + seq![x] + rest.skip(i - 1));
            assert(seq![s[0]] + (rest.take(i - 1) + seq![x] + rest.skip(i - 1)) =~= s.take(i)
                + seq![x] + s.skip(i));
        }
    }
}

/// Inserts `x` in key order; an element with the same key is replaced.
pub fn insert_sorted<T: IdKeyed>(v: &mut Vec<T>, x: T)
    requires
        sorted_by_key(old(v)@),
    ensures
        final(v)@ == insert_keyed(old(v)@, x),
{
    let ghost s = v@;
    let n = v.len();
    let xk = x.get_key();
    let mut i: usize = 0;
    while i < n && v[i].get_key() < xk
        invariant
            0 <= i <= n,
            n == v@.len(),
            v@ == s,
            xk == x.key(),
            forall|j: int| 0 <= j < i ==> s[j].key() < x.key(),
        decreases n - i,
    {
        i = i + 1;
    }
    proof {
        lemma_insert_keyed_at(s, x, i as int);
    }
    if i < n && v[i].get_key() == xk {
        v.remove(i);
        assert(v@ =~= s.take(i as int) + s.skip(i as int + 1));
        v.insert(i, x);
        assert(v@ =~= s.take(i as int) + seq![x] + s.skip(i as int + 1));
    } else {
        v.insert(i, x);
        assert(v@ =~= s.take(i as int) + seq![x] + s.skip(i as int));
    }
}

/// Where the first `i` keys differ from `k`, removal happens at `i`.
proof fn lemma_remove_keyed_at<T: IdKeyed>(s: Seq<T>, k: int, i: int)
    requires
        0 <= i <= s.len(),
        forall|j: int| 0 <= j < i ==> s[j].key() != k,
        i < s.len() ==> s[i].key() == k,
    ensures
        i < s.len() ==> remove_keyed(s, k) =~= s.take(i) + s.skip(i + 1),
        i == s.len() ==> remove_keyed(s, k) =~= s,
    decreases i,
{
    if i == 0 {
        if s.len() > 0 {
            assert(s.take(0) + s.skip(1) =~= s.drop_first());
        }
    } else {
        let rest = s.drop_first();
        lemma_remove_keyed_at(rest, k, i - 1);
        assert(remove_keyed(s, k) == seq![s[0]] + remove_keyed(rest, k));
        assert(forall|j: int| 0 <= j < rest.len() ==> rest[j] == s[j + 1]);
        if i < s.len() {
            assert(remove_keyed(rest, k) =~= rest.take(i - 1) + rest.skip(i));
            assert(seq![s[0]] + (rest.take(i - 1) + rest.skip(i)) =~= s.take(i) + s.skip(i + 1));
        } else {
            assert(seq![s[0]] + rest =~= s);
        }
    }
}

/// Removes the first element with key `k`, if any.
pub fn remove_by_key<T: IdKeyed>(v: &mut Vec<T>, k: usize)
    ensures
        final(v)@ == remove_keyed(old(v)@, k as int),
{
    let ghost s = v@;
    let n = v.len();
    let mut i: usize = 0;
    while i < n && v[i].get_key() != k
        invariant
            0 <= i <= n,
            n == v@.len(),
            v@ == s,
            forall|j: int| 0 <= j < i ==> s[j].key() != k,
        decreases n - i,
    {
        i = i + 1;
    }
    proof {
        lemma_remove_keyed_at(s, k as int, i as int);
    }
    if i < n {
        v.remove(i);
        assert(v@ =~= s.take(i as int) + s.skip(i as int + 1));
    }
}

} // verus!
