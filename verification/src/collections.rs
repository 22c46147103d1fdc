//! Keyed collections of the vault held as vectors: a set of account ids and
//! maps from account ids or numeric ids to values. Removal moves the last
//! element into the freed slot, the order that NEAR's unordered collections keep.

use vstd::prelude::*;

verus! {

/// The views of a sequence of account ids.
pub open spec fn views(s: Seq<String>) -> Seq<Seq<char>> {
    s.map_values(|a: String| a@)
}

/// No account id occurs twice.
pub open spec fn unique_views(s: Seq<String>) -> bool {
    forall|i: int, j: int| 0 <= i < j < s.len() ==> s[i]@ != s[j]@
}

/// The account id `k` occurs in `s`.
pub open spec fn has_view(s: Seq<String>, k: Seq<char>) -> bool {
    exists|i: int| 0 <= i < s.len() && s[i]@ == k
}

/// The position of `k` in `s`, or -1.
pub open spec fn view_index(s: Seq<String>, k: Seq<char>) -> int {
    if has_view(s, k) {
        choose|i: int| 0 <= i < s.len() && s[i]@ == k
    } else {
        -1
    }
}

/// `s` with `k` removed, the last element moving into its place.
pub open spec fn remove_view(s: Seq<String>, k: Seq<char>) -> Seq<String> {
    if has_view(s, k) {
        let i = view_index(s, k);
        s.update(i, s.last()).drop_last()
    } else {
        s
    }
}

/// `s` with `k` appended unless it is already there.
pub open spec fn insert_view(s: Seq<String>, k: String) -> Seq<String> {
    if has_view(s, k@) {
        s
    } else {
        s.push(k)
    }
}

/// The position that `view_index` chooses holds `k`, and with unique ids it is the only one.
pub proof fn lemma_view_index(s: Seq<String>, k: Seq<char>)
    requires
        has_view(s, k),
    ensures
        0 <= view_index(s, k) < s.len(),
        s[view_index(s, k)]@ == k,
        unique_views(s) ==> forall|j: int| 0 <= j < s.len() && s[j]@ == k ==> j == view_index(s, k),
{
}

/// Removing an id keeps the others unique, removes exactly `k`, and keeps every other id.
pub proof fn lemma_remove_view(s: Seq<String>, k: Seq<char>)
    requires
        unique_views(s),
    ensures
        unique_views(remove_view(s, k)),
        !has_view(remove_view(s, k), k),
        forall|x: Seq<char>| x != k ==> (has_view(remove_view(s, k), x) <==> has_view(s, x)),
        has_view(s, k) ==> remove_view(s, k).len() == s.len() - 1,
{
    if has_view(s, k) {
        let i = view_index(s, k);
        lemma_view_index(s, k);
        let r = remove_view(s, k);
        let last = s.len() - 1;
        assert forall|x: Seq<char>| x != k implies (has_view(r, x) <==> has_view(s, x)) by {
            if has_view(s, x) {
                let j = choose|j: int| 0 <= j < s.len() && s[j]@ == x;
                if j == last {
                    assert(r[i]@ == x);
                } else {
                    assert(r[j]@ == x);
                }
            }
            if has_view(r, x) {
                let j = choose|j: int| 0 <= j < r.len() && r[j]@ == x;
                if j == i {
                    assert(s[last]@ == x);
                } else {
                    assert(s[j]@ == x);
                }
            }
        }
        assert forall|a: int, b: int| 0 <= a < b < r.len() implies r[a]@ != r[b]@ by {
            if a == i {
                assert(s[last]@ != s[b]@);
            } else if b == i {
                assert(s[a]@ != s[last]@);
            } else {
            }
        }
        if has_view(r, k) {
            let j = choose|j: int| 0 <= j < r.len() && r[j]@ == k;
            if j == i {
                assert(s[last]@ == k);
            } else {
                assert(s[j]@ == k);
            }
        }
    }
}

/// Inserting an id keeps ids unique and adds exactly `k`.
pub proof fn lemma_insert_view(s: Seq<String>, k: String)
    requires
        unique_views(s),
    ensures
        unique_views(insert_view(s, k)),
        has_view(insert_view(s, k), k@),
        forall|x: Seq<char>| x != k@ ==> (has_view(insert_view(s, k), x) <==> has_view(s, x)),
{
    let r = insert_view(s, k);
    if !has_view(s, k@) {
        assert(r[s.len() as int]@ == k@);
        assert forall|x: Seq<char>| x != k@ implies (has_view(r, x) <==> has_view(s, x)) by {
            if has_view(s, x) {
                let j = choose|j: int| 0 <= j < s.len() && s[j]@ == x;
                assert(r[j]@ == x);
            }
            if has_view(r, x) {
                let j = choose|j: int| 0 <= j < r.len() && r[j]@ == x;
                assert(s[j]@ == x);
            }
        }
    }
}

/// Whether `k` is in `v`, and where.
pub fn find_view(v: &Vec<String>, k: &String) -> (r: Option<usize>)
    ensures
        r is None <==> !has_view(v@, k@),
        r matches Some(i) ==> i < v.len() && v@[i as int]@ == k@,
        unique_views(v@) ==> (r matches Some(i) ==> i == view_index(v@, k@)),
{
    let mut i: usize = 0;
    while i < v.len()
        invariant
            i <= v.len(),
            forall|j: int| 0 <= j < i ==> v@[j]@ != k@,
        decreases v.len() - i,
    {
        if v[i] == *k {
            proof {
                lemma_view_index(v@, k@);
            }
            return Some(i);
        }
        i = i + 1;
    }
    None
}

/// Removes `k` from the set held in `v`, moving the last id into its slot.
pub fn remove_string(v: &mut Vec<String>, k: &String) -> (removed: bool)
    requires
        unique_views(old(v)@),
    ensures
        final(v)@ == remove_view(old(v)@, k@),
        removed == has_view(old(v)@, k@),
        unique_views(final(v)@),
{
    proof {
        lemma_remove_view(old(v)@, k@);
    }
    match find_view(v, k) {
        Some(i) => {
            v.swap_remove(i);
            true
        },
        None => false,
    }
}

/// Adds `k` to the set held in `v` unless it is there.
pub fn insert_string(v: &mut Vec<String>, k: String)
    requires
        unique_views(old(v)@),
    ensures
        final(v)@ == insert_view(old(v)@, k),
        unique_views(final(v)@),
{
    proof {
        lemma_insert_view(old(v)@, k);
    }
    match find_view(v, &k) {
        Some(_) => {},
        None => {
            v.push(k);
        },
    }
}

// ---------------------------------------------------------------------------
// Maps keyed by account id.

/// The account id `k` is a key of `s`.
pub open spec fn has_key<V>(s: Seq<(String, V)>, k: Seq<char>) -> bool {
    exists|i: int| 0 <= i < s.len() && s[i].0@ == k
}

/// No key occurs twice.
pub open spec fn unique_keys<V>(s: Seq<(String, V)>) -> bool {
    forall|i: int, j: int| 0 <= i < j < s.len() ==> s[i].0@ != s[j].0@
}

/// The position of key `k`, or -1.
pub open spec fn key_index<V>(s: Seq<(String, V)>, k: Seq<char>) -> int {
    if has_key(s, k) {
        choose|i: int| 0 <= i < s.len() && s[i].0@ == k
    } else {
        -1
    }
}

/// The value stored under `k`, if any.
pub open spec fn lookup<V>(s: Seq<(String, V)>, k: Seq<char>) -> Option<V> {
    if has_key(s, k) {
        Some(s[key_index(s, k)].1)
    } else {
        None
    }
}

/// `s` with key `k` removed, the last pair moving into its slot.
pub open spec fn remove_key<V>(s: Seq<(String, V)>, k: Seq<char>) -> Seq<(String, V)> {
    if has_key(s, k) {
        let i = key_index(s, k);
        s.update(i, s.last()).drop_last()
    } else {
        s
    }
}

/// `s` with the value under `k` replaced, or the pair appended when `k` is new.
pub open spec fn put_key<V>(s: Seq<(String, V)>, k: String, v: V) -> Seq<(String, V)> {
    if has_key(s, k@) {
        s.update(key_index(s, k@), (s[key_index(s, k@)].0, v))
    } else {
        s.push((k, v))
    }
}

/// The position that `key_index` chooses holds `k`; with unique keys it is the only one.
pub proof fn lemma_key_index<V>(s: Seq<(String, V)>, k: Seq<char>)
    requires
        has_key(s, k),
    ensures
        0 <= key_index(s, k) < s.len(),
        s[key_index(s, k)].0@ == k,
        unique_keys(s) ==> forall|j: int| 0 <= j < s.len() && s[j].0@ == k ==> j == key_index(s, k),
{
}

/// Removing a key keeps keys unique, drops exactly `k`, and keeps every other value.
pub proof fn lemma_remove_key<V>(s: Seq<(String, V)>, k: Seq<char>)
    requires
        unique_keys(s),
    ensures
        unique_keys(remove_key(s, k)),
        lookup(remove_key(s, k), k) is None,
        forall|x: Seq<char>| x != k ==> lookup(remove_key(s, k), x) == lookup(s, x),
        has_key(s, k) ==> remove_key(s, k).len() == s.len() - 1,
{
    let r = remove_key(s, k);
    if has_key(s, k) {
        let i = key_index(s, k);
        lemma_key_index(s, k);
        let last = s.len() - 1;
        assert forall|a: int, b: int| 0 <= a < b < r.len() implies r[a].0@ != r[b].0@ by {
            if a == i {
                assert(s[last].0@ != s[b].0@);
            } else if b == i {
                assert(s[a].0@ != s[last].0@);
            }
        }
        assert forall|x: Seq<char>| x != k implies lookup(r, x) == lookup(s, x) by {
            if has_key(s, x) {
                lemma_key_index(s, x);
                let j = key_index(s, x);
                let jr = if j == last { i } else { j };
                assert(r[jr].0@ == x);
                assert(has_key(r, x));
                lemma_key_index(r, x);
            }
            if has_key(r, x) {
                lemma_key_index(r, x);
                let j = key_index(r, x);
                let js = if j == i { last } else { j };
                assert(s[js].0@ == x);
                assert(has_key(s, x));
                lemma_key_index(s, x);
            }
        }
        if has_key(r, k) {
            let j = choose|j: int| 0 <= j < r.len() && r[j].0@ == k;
            if j == i {
                assert(s[last].0@ == k);
            } else {
                assert(s[j].0@ == k);
            }
        }
    }
}

/// Putting a value keeps keys unique, stores `v` under `k`, and keeps every other value.
pub proof fn lemma_put_key<V>(s: Seq<(String, V)>, k: String, v: V)
    requires
        unique_keys(s),
    ensures
        unique_keys(put_key(s, k, v)),
        lookup(put_key(s, k, v), k@) == Some(v),
        forall|x: Seq<char>| x != k@ ==> lookup(put_key(s, k, v), x) == lookup(s, x),
{
    let r = put_key(s, k, v);
    if has_key(s, k@) {
        lemma_key_index(s, k@);
        let i = key_index(s, k@);
        assert(r[i].0@ == k@);
        lemma_key_index(r, k@);
        assert forall|x: Seq<char>| x != k@ implies lookup(r, x) == lookup(s, x) by {
            if has_key(s, x) {
                lemma_key_index(s, x);
                assert(r[key_index(s, x)].0@ == x);
                lemma_key_index(r, x);
            }
            if has_key(r, x) {
                lemma_key_index(r, x);
                assert(s[key_index(r, x)].0@ == x);
                lemma_key_index(s, x);
            }
        }
    } else {
        let n = s.len() as int;
        assert(r[n].0@ == k@);
        lemma_key_index(r, k@);
        assert forall|x: Seq<char>| x != k@ implies lookup(r, x) == lookup(s, x) by {
            if has_key(s, x) {
                lemma_key_index(s, x);
                assert(r[key_index(s, x)].0@ == x);
                lemma_key_index(r, x);
            }
            if has_key(r, x) {
                lemma_key_index(r, x);
                assert(s[key_index(r, x)].0@ == x);
                lemma_key_index(s, x);
            }
        }
    }
}

/// Where key `k` is stored in `v`.
pub fn find_key<V>(v: &Vec<(String, V)>, k: &String) -> (r: Option<usize>)
    ensures
        r is None <==> !has_key(v@, k@),
        r matches Some(i) ==> i < v.len() && v@[i as int].0@ == k@,
        unique_keys(v@) ==> (r matches Some(i) ==> i == key_index(v@, k@)),
{
    let mut i: usize = 0;
    while i < v.len()
        invariant
            i <= v.len(),
            forall|j: int| 0 <= j < i ==> v@[j].0@ != k@,
        decreases v.len() - i,
    {
        if v[i].0 == *k {
            proof {
                lemma_key_index(v@, k@);
            }
            return Some(i);
        }
        i = i + 1;
    }
    None
}

/// Removes key `k` from the map held in `v` and returns its value.
pub fn remove_by_key<V>(v: &mut Vec<(String, V)>, k: &String) -> (r: Option<V>)
    requires
        unique_keys(old(v)@),
    ensures
        final(v)@ == remove_key(old(v)@, k@),
        r == lookup(old(v)@, k@),
        unique_keys(final(v)@),
{
    proof {
        lemma_remove_key(old(v)@, k@);
    }
    match find_key(v, k) {
        Some(i) => {
            let (_, val) = v.swap_remove(i);
            Some(val)
        },
        None => None,
    }
}

/// Stores `val` under key `k`, replacing any value there.
pub fn put_by_key<V>(v: &mut Vec<(String, V)>, k: String, val: V)
    requires
        unique_keys(old(v)@),
    ensures
        final(v)@ == put_key(old(v)@, k, val),
        unique_keys(final(v)@),
{
    proof {
        lemma_put_key(old(v)@, k, val);
    }
    match find_key(v, &k) {
        Some(i) => {
            let key = v[i].0.clone();
            v.set(i, (key, val));
        },
        None => {
            v.push((k, val));
        },
    }
}

// ---------------------------------------------------------------------------
// Maps keyed by number.

/// The id `k` is a key of `s`.
pub open spec fn has_id<V>(s: Seq<(u64, V)>, k: u64) -> bool {
    exists|i: int| 0 <= i < s.len() && s[i].0 == k
}

/// No id occurs twice.
pub open spec fn unique_ids<V>(s: Seq<(u64, V)>) -> bool {
    forall|i: int, j: int| 0 <= i < j < s.len() ==> s[i].0 != s[j].0
}

/// The position of id `k`, or -1.
pub open spec fn id_index<V>(s: Seq<(u64, V)>, k: u64) -> int {
    if has_id(s, k) {
        choose|i: int| 0 <= i < s.len() && s[i].0 == k
    } else {
        -1
    }
}

/// The value stored under id `k`, if any.
pub open spec fn lookup_id<V>(s: Seq<(u64, V)>, k: u64) -> Option<V> {
    if has_id(s, k) {
        Some(s[id_index(s, k)].1)
    } else {
        None
    }
}

/// `s` with id `k` removed, the last pair moving into its slot.
pub open spec fn remove_id<V>(s: Seq<(u64, V)>, k: u64) -> Seq<(u64, V)> {
    if has_id(s, k) {
        let i = id_index(s, k);
        s.update(i, s.last()).drop_last()
    } else {
        s
    }
}

/// `s` with the value under id `k` replaced, or the pair appended when `k` is new.
pub open spec fn put_id<V>(s: Seq<(u64, V)>, k: u64, v: V) -> Seq<(u64, V)> {
    if has_id(s, k) {
        s.update(id_index(s, k), (k, v))
    } else {
        s.push((k, v))
    }
}

/// The position that `id_index` chooses holds `k`; with unique ids it is the only one.
pub proof fn lemma_id_index<V>(s: Seq<(u64, V)>, k: u64)
    requires
        has_id(s, k),
    ensures
        0 <= id_index(s, k) < s.len(),
        s[id_index(s, k)].0 == k,
        unique_ids(s) ==> forall|j: int| 0 <= j < s.len() && s[j].0 == k ==> j == id_index(s, k),
{
}

/// Removing an id keeps ids unique, drops exactly `k`, and keeps every other value.
pub proof fn lemma_remove_id<V>(s: Seq<(u64, V)>, k: u64)
    requires
        unique_ids(s),
    ensures
        unique_ids(remove_id(s, k)),
        lookup_id(remove_id(s, k), k) is None,
        forall|x: u64| x != k ==> lookup_id(remove_id(s, k), x) == lookup_id(s, x),
        has_id(s, k) ==> remove_id(s, k).len() == s.len() - 1,
{
    let r = remove_id(s, k);
    if has_id(s, k) {
        let i = id_index(s, k);
        lemma_id_index(s, k);
        let last = s.len() - 1;
        assert forall|a: int, b: int| 0 <= a < b < r.len() implies r[a].0 != r[b].0 by {
            if a == i {
                assert(s[last].0 != s[b].0);
            } else if b == i {
                assert(s[a].0 != s[last].0);
            }
        }
        assert forall|x: u64| x != k implies lookup_id(r, x) == lookup_id(s, x) by {
            if has_id(s, x) {
                lemma_id_index(s, x);
                let j = id_index(s, x);
                let jr = if j == last { i } else { j };
                assert(r[jr].0 == x);
                assert(has_id(r, x));
                lemma_id_index(r, x);
            }
            if has_id(r, x) {
                lemma_id_index(r, x);
                let j = id_index(r, x);
                let js = if j == i { last } else { j };
                assert(s[js].0 == x);
                assert(has_id(s, x));
                lemma_id_index(s, x);
            }
        }
        if has_id(r, k) {
            let j = choose|j: int| 0 <= j < r.len() && r[j].0 == k;
            if j == i {
                assert(s[last].0 == k);
            } else {
                assert(s[j].0 == k);
            }
        }
    }
}

/// Putting a value keeps ids unique, stores `v` under `k`, and keeps every other value.
pub proof fn lemma_put_id<V>(s: Seq<(u64, V)>, k: u64, v: V)
    requires
        unique_ids(s),
    ensures
        unique_ids(put_id(s, k, v)),
        lookup_id(put_id(s, k, v), k) == Some(v),
        forall|x: u64| x != k ==> lookup_id(put_id(s, k, v), x) == lookup_id(s, x),
{
    let r = put_id(s, k, v);
    if has_id(s, k) {
        lemma_id_index(s, k);
        let i = id_index(s, k);
        assert(r[i].0 == k);
        lemma_id_index(r, k);
        assert forall|x: u64| x != k implies lookup_id(r, x) == lookup_id(s, x) by {
            if has_id(s, x) {
                lemma_id_index(s, x);
                assert(r[id_index(s, x)].0 == x);
                lemma_id_index(r, x);
            }
            if has_id(r, x) {
                lemma_id_index(r, x);
                assert(s[id_index(r, x)].0 == x);
                lemma_id_index(s, x);
            }
        }
    } else {
        let n = s.len() as int;
        assert(r[n].0 == k);
        lemma_id_index(r, k);
        assert forall|x: u64| x != k implies lookup_id(r, x) == lookup_id(s, x) by {
            if has_id(s, x) {
                lemma_id_index(s, x);
                assert(r[id_index(s, x)].0 == x);
                lemma_id_index(r, x);
            }
            if has_id(r, x) {
                lemma_id_index(r, x);
                assert(s[id_index(r, x)].0 == x);
                lemma_id_index(s, x);
            }
        }
    }
}

/// Where id `k` is stored in `v`.
pub fn find_id<V>(v: &Vec<(u64, V)>, k: u64) -> (r: Option<usize>)
    ensures
        r is None <==> !has_id(v@, k),
        r matches Some(i) ==> i < v.len() && v@[i as int].0 == k,
        unique_ids(v@) ==> (r matches Some(i) ==> i == id_index(v@, k)),
{
    let mut i: usize = 0;
    while i < v.len()
        invariant
            i <= v.len(),
            forall|j: int| 0 <= j < i ==> v@[j].0 != k,
        decreases v.len() - i,
    {
        if v[i].0 == k {
            proof {
                lemma_id_index(v@, k);
            }
            return Some(i);
        }
        i = i + 1;
    }
    None
}

/// Removes id `k` from the map held in `v` and returns its value.
pub fn remove_by_id<V>(v: &mut Vec<(u64, V)>, k: u64) -> (r: Option<V>)
    requires
        unique_ids(old(v)@),
    ensures
        final(v)@ == remove_id(old(v)@, k),
        r == lookup_id(old(v)@, k),
        unique_ids(final(v)@),
{
    proof {
        lemma_remove_id(old(v)@, k);
    }
    match find_id(v, k) {
        Some(i) => {
            let (_, val) = v.swap_remove(i);
            Some(val)
        },
        None => None,
    }
}

/// Stores `val` under id `k`, replacing any value there.
pub fn put_by_id<V>(v: &mut Vec<(u64, V)>, k: u64, val: V)
    requires
        unique_ids(old(v)@),
    ensures
        final(v)@ == put_id(old(v)@, k, val),
        unique_ids(final(v)@),
{
    proof {
        lemma_put_id(old(v)@, k, val);
    }
    match find_id(v, k) {
        Some(i) => {
            v.set(i, (k, val));
        },
        None => {
            v.push((k, val));
        },
    }
}

// ---------------------------------------------------------------------------
// Uniqueness checks.

/// Whether no account id occurs twice in `v`.
pub fn all_views_unique(v: &Vec<String>) -> (r: bool)
    ensures
        r == unique_views(v@),
{
    let mut j: usize = 0;
    while j < v.len()
        invariant
            j <= v@.len(),
            forall|a: int, b: int| 0 <= a < b < j ==> v@[a]@ != v@[b]@,
        decreases v@.len() - j,
    {
        let mut i: usize = 0;
        while i < j
            invariant
                i <= j,
                j < v@.len(),
                forall|a: int, b: int| 0 <= a < b < j ==> v@[a]@ != v@[b]@,
                forall|a: int| 0 <= a < i ==> v@[a]@ != v@[j as int]@,
            decreases j - i,
        {
            if v[i] == v[j] {
                return false;
            }
            i = i + 1;
        }
        j = j + 1;
    }
    true
}

/// Whether no key occurs twice in the map held in `v`.
pub fn all_keys_unique<V>(v: &Vec<(String, V)>) -> (r: bool)
    ensures
        r == unique_keys(v@),
{
    let mut j: usize = 0;
    while j < v.len()
        invariant
            j <= v@.len(),
            forall|a: int, b: int| 0 <= a < b < j ==> v@[a].0@ != v@[b].0@,
        decreases v@.len() - j,
    {
        let mut i: usize = 0;
        while i < j
            invariant
                i <= j,
                j < v@.len(),
                forall|a: int, b: int| 0 <= a < b < j ==> v@[a].0@ != v@[b].0@,
                forall|a: int| 0 <= a < i ==> v@[a].0@ != v@[j as int].0@,
            decreases j - i,
        {
            if v[i].0 == v[j].0 {
                return false;
            }
            i = i + 1;
        }
        j = j + 1;
    }
    true
}

/// Whether no id occurs twice in the map held in `v`.
pub fn all_ids_unique<V>(v: &Vec<(u64, V)>) -> (r: bool)
    ensures
        r == unique_ids(v@),
{
    let mut j: usize = 0;
    while j < v.len()
        invariant
            j <= v@.len(),
            forall|a: int, b: int| 0 <= a < b < j ==> v@[a].0 != v@[b].0,
        decreases v@.len() - j,
    {
        let mut i: usize = 0;
        while i < j
            invariant
                i <= j,
                j < v@.len(),
                forall|a: int, b: int| 0 <= a < b < j ==> v@[a].0 != v@[b].0,
                forall|a: int| 0 <= a < i ==> v@[a].0 != v@[j as int].0,
            decreases j - i,
        {
            if v[i].0 == v[j].0 {
                return false;
            }
            i = i + 1;
        }
        j = j + 1;
    }
    true
}

} // verus!
