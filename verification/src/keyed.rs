//! Ordered lists of strings and of string-keyed entries, the containers behind the
//! crate's registries.
use vstd::prelude::*;

verus! {

/// `<str as PartialEq>::eq`.
#[verifier::external_body]
pub(crate) fn str_eq(a: &str, b: &str) -> (r: bool)
    ensures
        r == (a@ == b@),
{
    a == b
}

/// The character sequences of a list of strings.
pub open spec fn strs(v: Seq<String>) -> Seq<Seq<char>> {
    v.map_values(|s: String| s@)
}

/// The keys of a list of entries.
pub open spec fn keys_of<V>(v: Seq<(String, V)>) -> Seq<Seq<char>> {
    v.map_values(|e: (String, V)| e.0@)
}

/// First position of `k` in `v`.
pub fn find_str(v: &Vec<String>, k: &str) -> (r: Option<usize>)
    ensures
        match r {
            Some(i) => i < v.len() && strs(v@)[i as int] == k@,
            None => !strs(v@).contains(k@),
        },
{
    let mut i: usize = 0;
    while i < v.len()
        invariant
            i <= v.len(),
            forall|j: int| 0 <= j < i ==> strs(v@)[j] != k@,
        decreases v.len() - i,
    {
        if str_eq(v[i].as_str(), k) {
            return Some(i);
        }
        i += 1;
    }
    proof {
        if strs(v@).contains(k@) {
            let j = choose|j: int| 0 <= j < strs(v@).len() && strs(v@)[j] == k@;
            assert(strs(v@)[j] != k@);
        }
    }
    None
}

/// First position of an entry keyed `k` in `v`.
pub fn find_key<V>(v: &Vec<(String, V)>, k: &str) -> (r: Option<usize>)
    ensures
        match r {
            Some(i) => i < v.len() && keys_of(v@)[i as int] == k@,
            None => !keys_of(v@).contains(k@),
        },
{
    let mut i: usize = 0;
    while i < v.len()
        invariant
            i <= v.len(),
            forall|j: int| 0 <= j < i ==> keys_of(v@)[j] != k@,
        decreases v.len() - i,
    {
        if str_eq(v[i].0.as_str(), k) {
            return Some(i);
        }
        i += 1;
    }
    proof {
        if keys_of(v@).contains(k@) {
            let j = choose|j: int| 0 <= j < keys_of(v@).len() && keys_of(v@)[j] == k@;
            assert(keys_of(v@)[j] != k@);
        }
    }
    None
}

/// In a list without repetitions, the position of an element is unique.
pub proof fn lemma_unique_index<T>(s: Seq<T>, i: int, j: int)
    requires
        s.no_duplicates(),
        0 <= i < s.len(),
        0 <= j < s.len(),
        s[i] == s[j],
    ensures
        i == j,
{
}

/// Removing position `i` of a list without repetitions removes exactly `s[i]`.
pub proof fn lemma_remove_index<T>(s: Seq<T>, i: int)
    requires
        s.no_duplicates(),
        0 <= i < s.len(),
    ensures
        s.remove(i).no_duplicates(),
        s.remove(i).to_set() == s.to_set().remove(s[i]),
        forall|x: T| #[trigger] s.remove(i).contains(x) <==> (s.contains(x) && x != s[i]),
{
    let r = s.remove(i);
    assert forall|x: T| #[trigger] r.contains(x) <==> (s.contains(x) && x != s[i]) by {
        if r.contains(x) {
            let j = choose|j: int| 0 <= j < r.len() && r[j] == x;
            if j < i {
                assert(s[j] == x);
                assert(j != i);
            } else {
                assert(s[j + 1] == x);
            }
        }
        if s.contains(x) && x != s[i] {
            let j = choose|j: int| 0 <= j < s.len() && s[j] == x;
            if j < i {
                assert(r[j] == x);
            } else {
                assert(j != i);
                assert(r[j - 1] == x);
            }
        }
    }
    assert forall|a: int, b: int| 0 <= a < r.len() && 0 <= b < r.len() && a != b implies r[a] != r[b] by {
        let a1 = if a < i { a } else { a + 1 };
        let b1 = if b < i { b } else { b + 1 };
        assert(r[a] == s[a1]);
        assert(r[b] == s[b1]);
    }
    assert(r.to_set() =~= s.to_set().remove(s[i]));
}

/// Appending an absent element keeps a list free of repetitions.
pub proof fn lemma_push_fresh<T>(s: Seq<T>, x: T)
    requires
        s.no_duplicates(),
        !s.contains(x),
    ensures
        s.push(x).no_duplicates(),
        s.push(x).to_set() == s.to_set().insert(x),
{
    let r = s.push(x);
    assert forall|a: int, b: int| 0 <= a < r.len() && 0 <= b < r.len() && a != b implies r[a] != r[b] by {
        if a < s.len() && b < s.len() {
            assert(r[a] == s[a] && r[b] == s[b]);
        } else if a < s.len() {
            assert(r[a] == s[a]);
            assert(s.contains(s[a]));
        } else if b < s.len() {
            assert(r[b] == s[b]);
            assert(s.contains(s[b]));
        }
    }
    assert forall|y: T| #[trigger] r.contains(y) <==> (s.contains(y) || y == x) by {
        if r.contains(y) {
            let j = choose|j: int| 0 <= j < r.len() && r[j] == y;
            if j < s.len() {
                assert(s[j] == y);
            }
        }
        if s.contains(y) {
            let j = choose|j: int| 0 <= j < s.len() && s[j] == y;
            assert(r[j] == y);
        }
        if y == x {
            assert(r[s.len() as int] == y);
        }
    }
    assert(r.to_set() =~= s.to_set().insert(x));
}

/// Dropping a prefix keeps a list free of repetitions.
pub proof fn lemma_suffix_no_dup<T>(s: Seq<T>, k: int)
    requires
        s.no_duplicates(),
        0 <= k <= s.len(),
    ensures
        s.subrange(k, s.len() as int).no_duplicates(),
{
    let r = s.subrange(k, s.len() as int);
    assert forall|a: int, b: int| 0 <= a < r.len() && 0 <= b < r.len() && a != b implies r[a] != r[b] by {
        assert(r[a] == s[a + k] && r[b] == s[b + k]);
    }
}


/// Removes `k` from a list of strings without repetitions.
pub fn remove_str(v: &mut Vec<String>, k: &str)
    requires
        strs(old(v)@).no_duplicates(),
    ensures
        strs(final(v)@).no_duplicates(),
        strs(final(v)@).to_set() == strs(old(v)@).to_set().remove(k@),
        strs(old(v)@).contains(k@) ==> strs(final(v)@) == strs(old(v)@).remove(
            strs(old(v)@).index_of(k@),
        ),
        !strs(old(v)@).contains(k@) ==> final(v)@ == old(v)@,
{
    match find_str(v, k) {
        Some(i) => {
            let ghost before = strs(v@);
            v.remove(i);
            proof {
                assert(strs(v@) =~= before.remove(i as int));
                lemma_remove_index(before, i as int);
                assert(before.contains(k@));
                let j = before.index_of(k@);
                lemma_unique_index(before, i as int, j);
            }
        },
        None => {
            assert(strs(v@).to_set() =~= strs(v@).to_set().remove(k@));
        },
    }
}

/// Adds `k` to a list of strings without repetitions, at the end; tells whether it was absent.
pub fn insert_str(v: &mut Vec<String>, k: &str) -> (added: bool)
    requires
        strs(old(v)@).no_duplicates(),
    ensures
        added == !strs(old(v)@).contains(k@),
        strs(final(v)@).no_duplicates(),
        strs(final(v)@).to_set() == strs(old(v)@).to_set().insert(k@),
        strs(final(v)@) == if added {
            strs(old(v)@).push(k@)
        } else {
            strs(old(v)@)
        },
{
    match find_str(v, k) {
        Some(i) => {
            assert(strs(v@).to_set() =~= strs(v@).to_set().insert(k@));
            false
        },
        None => {
            let ghost before = strs(v@);
            v.push(k.to_owned());
            proof {
                assert(strs(v@) =~= before.push(k@));
                lemma_push_fresh(before, k@);
            }
            true
        },
    }
}

/// Whether `k` is in a list of strings.
pub fn has_str(v: &Vec<String>, k: &str) -> (r: bool)
    ensures
        r == strs(v@).contains(k@),
{
    find_str(v, k).is_some()
}

/// The map that a list of string-keyed entries denotes.
pub open spec fn entry_map<V>(v: Seq<(String, V)>) -> Map<Seq<char>, V>
    decreases v.len(),
{
    if v.len() == 0 {
        Map::empty()
    } else {
        entry_map(v.drop_last()).insert(v.last().0@, v.last().1)
    }
}

/// With distinct keys, the map holds exactly the listed keys, each with its listed value.
pub proof fn lemma_entry_map<V>(v: Seq<(String, V)>)
    requires
        keys_of(v).no_duplicates(),
    ensures
        forall|q: Seq<char>| #[trigger] entry_map(v).contains_key(q) <==> keys_of(v).contains(q),
        forall|i: int| 0 <= i < v.len() ==> #[trigger] entry_map(v)[keys_of(v)[i]] == v[i].1,
    decreases v.len(),
{
    if v.len() > 0 {
        let w = v.drop_last();
        assert(keys_of(w) =~= keys_of(v).drop_last());
        assert(keys_of(w).no_duplicates());
        lemma_entry_map(w);
        assert(entry_map(v) == entry_map(w).insert(v.last().0@, v.last().1));
        assert forall|q: Seq<char>| #[trigger] entry_map(v).contains_key(q) <==> keys_of(v).contains(q) by {
            assert(entry_map(v).contains_key(q) == (entry_map(w).contains_key(q) || q == v.last().0@));
            if keys_of(v).contains(q) {
                let j = choose|j: int| 0 <= j < keys_of(v).len() && keys_of(v)[j] == q;
                if j < w.len() {
                    assert(keys_of(w)[j] == q);
                }
            }
            if keys_of(w).contains(q) {
                let j = choose|j: int| 0 <= j < keys_of(w).len() && keys_of(w)[j] == q;
                assert(keys_of(v)[j] == q);
            }
            assert(keys_of(v)[v.len() - 1] == v.last().0@);
        }
        assert forall|i: int| 0 <= i < v.len() implies #[trigger] entry_map(v)[keys_of(v)[i]] == v[i].1 by {
            if i < v.len() - 1 {
                assert(keys_of(w)[i] == keys_of(v)[i]);
                assert(w[i] == v[i]);
                assert(keys_of(v)[i] != keys_of(v)[v.len() - 1]);
            }
        }
    }
}

/// Removes the entry keyed `k`, if any.
pub fn remove_key<V>(v: &mut Vec<(String, V)>, k: &str)
    requires
        keys_of(old(v)@).no_duplicates(),
    ensures
        keys_of(final(v)@).no_duplicates(),
        entry_map(final(v)@) == entry_map(old(v)@).remove(k@),
        keys_of(old(v)@).contains(k@) ==> final(v)@ == old(v)@.remove(
            keys_of(old(v)@).index_of(k@),
        ),
        !keys_of(old(v)@).contains(k@) ==> final(v)@ == old(v)@,
{
    match find_key(v, k) {
        Some(i) => {
            let ghost before = v@;
            v.remove(i);
            proof {
                assert(keys_of(v@) =~= keys_of(before).remove(i as int));
                lemma_remove_index(keys_of(before), i as int);
                lemma_entry_map(before);
                lemma_entry_map(v@);
                let j = keys_of(before).index_of(k@);
                lemma_unique_index(keys_of(before), i as int, j);
                assert forall|q: Seq<char>| #[trigger] entry_map(v@).contains_key(q)
                    == entry_map(before).remove(k@).contains_key(q) by {}
                assert forall|q: Seq<char>| #[trigger] entry_map(v@).contains_key(q) implies
                    entry_map(v@)[q] == entry_map(before).remove(k@)[q] by {
                    let a = keys_of(v@).index_of(q);
                    let b = if a < i { a } else { a + 1 };
                    assert(v@[a] == before[b]);
                    assert(keys_of(before)[b] == q);
                }
                assert(entry_map(v@) =~= entry_map(before).remove(k@));
            }
        },
        None => {
            proof {
                lemma_entry_map(v@);
                assert(entry_map(v@) =~= entry_map(v@).remove(k@));
            }
        },
    }
}

/// Sets the entry keyed `k` to `x`: in place if present, appended otherwise.
pub fn set_key<V>(v: &mut Vec<(String, V)>, k: String, x: V)
    requires
        keys_of(old(v)@).no_duplicates(),
    ensures
        keys_of(final(v)@).no_duplicates(),
        entry_map(final(v)@) == entry_map(old(v)@).insert(k@, x),
        keys_of(final(v)@).to_set() == keys_of(old(v)@).to_set().insert(k@),
{
    match find_key(v, k.as_str()) {
        Some(i) => {
            let ghost before = v@;
            v.set(i, (k, x));
            proof {
                assert(keys_of(v@) =~= keys_of(before));
                lemma_entry_map(before);
                lemma_entry_map(v@);
                assert forall|q: Seq<char>| #[trigger] entry_map(v@).contains_key(q)
                    == entry_map(before).insert(k@, x).contains_key(q) by {
                    assert(keys_of(before)[i as int] == k@);
                }
                assert forall|q: Seq<char>| #[trigger] entry_map(v@).contains_key(q) implies
                    entry_map(v@)[q] == entry_map(before).insert(k@, x)[q] by {
                    let a = keys_of(v@).index_of(q);
                    if a != i {
                        assert(v@[a] == before[a]);
                    }
                }
                assert(entry_map(v@) =~= entry_map(before).insert(k@, x));
                assert(keys_of(v@).to_set() =~= keys_of(before).to_set().insert(k@));
            }
        },
        None => {
            let ghost before = v@;
            let ghost kk = k@;
            v.push((k, x));
            proof {
                assert(keys_of(v@) =~= keys_of(before).push(kk));
                lemma_push_fresh(keys_of(before), kk);
                assert(v@.drop_last() =~= before);
            }
        },
    }
}

/// The value of the entry keyed `k`, if any.
pub fn get_key<'a, V>(v: &'a Vec<(String, V)>, k: &str) -> (r: Option<&'a V>)
    requires
        keys_of(v@).no_duplicates(),
    ensures
        match r {
            Some(x) => entry_map(v@).contains_key(k@) && entry_map(v@)[k@] == *x,
            None => !entry_map(v@).contains_key(k@),
        },
{
    proof {
        lemma_entry_map(v@);
    }
    match find_key(v, k) {
        Some(i) => Some(&v[i].1),
        None => None,
    }
}


/// Removes the entry keyed `k` and hands back its value, if there is one.
pub fn take_key<V>(v: &mut Vec<(String, V)>, k: &str) -> (r: Option<V>)
    requires
        keys_of(old(v)@).no_duplicates(),
    ensures
        keys_of(final(v)@).no_duplicates(),
        entry_map(final(v)@) == entry_map(old(v)@).remove(k@),
        match r {
            Some(x) => entry_map(old(v)@).contains_key(k@) && entry_map(old(v)@)[k@] == x,
            None => !entry_map(old(v)@).contains_key(k@),
        },
{
    proof {
        lemma_entry_map(v@);
    }
    match find_key(v, k) {
        Some(i) => {
            let ghost before = v@;
            let e = v.remove(i);
            proof {
                assert(keys_of(v@) =~= keys_of(before).remove(i as int));
                lemma_remove_index(keys_of(before), i as int);
                lemma_entry_map(v@);
                assert forall|q: Seq<char>| #[trigger] entry_map(v@).contains_key(q)
                    == entry_map(before).remove(k@).contains_key(q) by {
                    if keys_of(before).contains(q) && q != k@ {
                        let b = keys_of(before).index_of(q);
                        assert(b != i);
                    }
                }
                assert forall|q: Seq<char>| #[trigger] entry_map(v@).contains_key(q) implies
                    entry_map(v@)[q] == entry_map(before).remove(k@)[q] by {
                    let a = keys_of(v@).index_of(q);
                    let b = if a < i { a } else { a + 1 };
                    assert(v@[a] == before[b]);
                    assert(keys_of(before)[b] == q);
                }
                assert(entry_map(v@) =~= entry_map(before).remove(k@));
            }
            Some(e.1)
        },
        None => {
            proof {
                assert(entry_map(v@) =~= entry_map(v@).remove(k@));
            }
            None
        },
    }
}

/// How many oldest elements go when a list of `n` must shrink to `cap`.
pub open spec fn excess(n: int, cap: int) -> int {
    if n > cap {
        n - cap
    } else {
        0
    }
}

/// Forgets the oldest strings until at most `cap` remain.
pub fn keep_newest(v: &mut Vec<String>, cap: usize)
    ensures
        strs(final(v)@) == strs(old(v)@).subrange(
            excess(old(v)@.len() as int, cap as int),
            old(v)@.len() as int,
        ),
{
    let ghost f = strs(v@);
    let ghost n = v@.len() as int;
    let ghost mut j: int = 0;
    assert(f.subrange(0, n) =~= f);
    while v.len() > cap
        invariant
            n == f.len(),
            0 <= j <= excess(n, cap as int),
            v@.len() == n - j,
            strs(v@) == f.subrange(j, n),
        decreases v.len(),
    {
        let ghost before = v@;
        v.remove(0);
        proof {
            assert(strs(v@) =~= strs(before).subrange(1, before.len() as int));
            assert(f.subrange(j, n).subrange(1, n - j) =~= f.subrange(j + 1, n));
            assert(strs(v@) =~= f.subrange(j + 1, n));
            j = j + 1;
        }
    }
}


/// Appending `x` adds `x` to the set of elements.
pub proof fn lemma_push_to_set<T>(s: Seq<T>, x: T)
    ensures
        s.push(x).to_set() == s.to_set().insert(x),
{
    let r = s.push(x);
    assert forall|y: T| #[trigger] r.contains(y) <==> (s.contains(y) || y == x) by {
        if r.contains(y) {
            let j = choose|j: int| 0 <= j < r.len() && r[j] == y;
            if j < s.len() {
                assert(s[j] == y);
            }
        }
        if s.contains(y) {
            let j = choose|j: int| 0 <= j < s.len() && s[j] == y;
            assert(r[j] == y);
        }
        if y == x {
            assert(r[s.len() as int] == y);
        }
    }
    assert(r.to_set() =~= s.to_set().insert(x));
}

} // verus!
