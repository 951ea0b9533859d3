use vstd::prelude::*;

verus! {

/// Records that are ordered by a time stamp: block headers, event positions, patch entries.
pub trait TimeKeyed {
    spec fn time_key(&self) -> int;

    fn key(&self) -> (k: u64)
        ensures
            k as int == self.time_key(),
    ;
}

impl TimeKeyed for (u64, u32) {
    open spec fn time_key(&self) -> int {
        self.0 as int
    }

    fn key(&self) -> (k: u64) {
        self.0
    }
}

impl TimeKeyed for (u32, u32, u32) {
    open spec fn time_key(&self) -> int {
        self.0 as int
    }

    fn key(&self) -> (k: u64) {
        self.0 as u64
    }
}

impl TimeKeyed for u32 {
    open spec fn time_key(&self) -> int {
        *self as int
    }

    fn key(&self) -> (k: u64) {
        *self as u64
    }
}

impl TimeKeyed for (u32, (u32, u16)) {
    open spec fn time_key(&self) -> int {
        self.0 as int
    }

    fn key(&self) -> (k: u64) {
        self.0 as u64
    }
}

/// Keys never decrease along the sequence.
pub open spec fn keys_sorted<T: TimeKeyed>(s: Seq<T>) -> bool {
    forall|i: int, j: int| 0 <= i <= j < s.len() ==> #[trigger] s[i].time_key() <= #[trigger] s[j].time_key()
}

/// Some record holds exactly this key.
pub open spec fn has_key<T: TimeKeyed>(s: Seq<T>, at: int) -> bool {
    exists|i: int| 0 <= i < s.len() && #[trigger] s[i].time_key() == at
}

/// What a binary search by key may answer: `Ok(i)` names a record with the key; `Err(i)` is the
/// position where the key would have to be inserted to keep the records ordered. On records
/// that are not ordered by key, an `Err` answer is only known to lie within bounds.
pub open spec fn search_result<T: TimeKeyed>(s: Seq<T>, at: int, r: Result<usize, usize>) -> bool {
    match r {
        Ok(i) => i < s.len() && s[i as int].time_key() == at,
        Err(i) => i <= s.len() && !(keys_sorted(s) && has_key(s, at)) && (keys_sorted(s) ==> {
            &&& forall|j: int| 0 <= j < i ==> #[trigger] s[j].time_key() < at
            &&& forall|j: int| i <= j < s.len() ==> #[trigger] s[j].time_key() > at
        }),
    }
}

/// Binary search over records ordered by key, answering as `slice::binary_search_by_key` does.
pub fn search_by_key<T: TimeKeyed>(s: &[T], at: u64) -> (r: Result<usize, usize>)
    ensures
        search_result(s@, at as int, r),
{
    let mut left: usize = 0;
    let mut right: usize = s.len();
    while left < right
        invariant
            left <= right <= s@.len(),
            keys_sorted(s@) ==> forall|j: int| 0 <= j < left ==> #[trigger] s@[j].time_key() < at,
            keys_sorted(s@) ==> forall|j: int| right <= j < s@.len() ==> #[trigger] s@[j].time_key() > at,
        decreases right - left,
    {
        let mid = left + (right - left) / 2;
        let k = s[mid].key();
        if k < at {
            proof {
                if keys_sorted(s@) {
                    assert forall|j: int| 0 <= j < mid + 1 implies #[trigger] s@[j].time_key() < at by {
                        assert(s@[j].time_key() <= s@[mid as int].time_key());
                    }
                }
            }
            left = mid + 1;
        } else if k > at {
            proof {
                if keys_sorted(s@) {
                    assert forall|j: int| mid <= j < s@.len() implies #[trigger] s@[j].time_key() > at by {
                        assert(s@[mid as int].time_key() <= s@[j].time_key());
                    }
                }
            }
            right = mid;
        } else {
            return Ok(mid);
        }
    }
    proof {
        if keys_sorted(s@) && has_key(s@, at as int) {
            let w = choose|i: int| 0 <= i < s@.len() && #[trigger] s@[i].time_key() == at;
            assert(s@[w].time_key() == at);
        }
    }
    Err(left)
}

/// The index that a floor lookup may pick: on ordered records, a record holding the key, or
/// else the last record before the key, or the first record when every key is later.
pub open spec fn floor_index<T: TimeKeyed>(s: Seq<T>, at: int, i: int) -> bool {
    &&& (s.len() > 0 ==> 0 <= i < s.len())
    &&& (s.len() == 0 ==> i == 0)
    &&& keys_sorted(s) && s.len() > 0 ==> {
        ||| s[i].time_key() == at
        ||| (s[i].time_key() < at && forall|j: int| i < j < s.len() ==> #[trigger] s[j].time_key() > at)
        ||| (i == 0 && forall|j: int| 0 <= j < s.len() ==> #[trigger] s[j].time_key() > at)
    }
    &&& (s[i].time_key() == at || !has_key(s, at) || !keys_sorted(s))
}

/// A floor lookup: a binary search whose miss falls back to the record before the insertion point.
pub fn floor_search<T: TimeKeyed>(s: &[T], at: u64) -> (i: usize)
    ensures
        floor_index(s@, at as int, i as int),
{
    match search_by_key(s, at) {
        Ok(i) => i,
        Err(i) => {
            if i > 0 {
                i - 1
            } else {
                i
            }
        },
    }
}

} // verus!

verus! {

/// Sorts records by key with the standard library's `slice::sort_by_key`. Claimed, as std
/// documents: the result holds the same records, ordered by key, and the sort is stable
/// (records with equal keys keep their order), which leaves exactly one possible result.
#[verifier::external_body]
pub(crate) fn sort_by_time<T: TimeKeyed>(v: &mut Vec<T>)
    ensures
        final(v)@.to_multiset() == old(v)@.to_multiset(),
        final(v)@.len() == old(v)@.len(),
        keys_sorted(final(v)@),
        final(v)@ == stable_sort(old(v)@, by_time_key::<T>()),
{
    v.sort_by_key(|x| x.key());
}

} // verus!

verus! {

/// The key of a record, as a function.
pub open spec fn by_time_key<T: TimeKeyed>() -> spec_fn(T) -> int {
    |x: T| x.time_key()
}

/// The position at which a record with key `k` goes among records ordered by key, after every
/// record whose key is not greater: scanning from `i`, the first position holding a greater key.
pub open spec fn insert_pos<T>(s: Seq<T>, k: int, key: spec_fn(T) -> int, i: int) -> int
    decreases s.len() - i,
{
    if i < 0 || i >= s.len() || key(s[i]) > k {
        i
    } else {
        insert_pos(s, k, key, i + 1)
    }
}

/// The records ordered by key the way a stable sort orders them: each record, in turn, goes
/// after every earlier record whose key is not greater than its own.
pub open spec fn stable_sort<T>(s: Seq<T>, key: spec_fn(T) -> int) -> Seq<T>
    decreases s.len(),
{
    if s.len() == 0 {
        s
    } else {
        let sorted = stable_sort(s.drop_last(), key);
        sorted.insert(insert_pos(sorted, key(s.last()), key, 0), s.last())
    }
}

pub proof fn lemma_insert_pos_bounds<T>(s: Seq<T>, k: int, key: spec_fn(T) -> int, i: int)
    requires
        0 <= i <= s.len(),
    ensures
        i <= insert_pos(s, k, key, i) <= s.len(),
    decreases s.len() - i,
{
    if i < s.len() && key(s[i]) <= k {
        lemma_insert_pos_bounds(s, k, key, i + 1);
    }
}

pub proof fn lemma_stable_sort_len<T>(s: Seq<T>, key: spec_fn(T) -> int)
    ensures
        stable_sort(s, key).len() == s.len(),
    decreases s.len(),
{
    if s.len() > 0 {
        lemma_stable_sort_len(s.drop_last(), key);
        let sorted = stable_sort(s.drop_last(), key);
        lemma_insert_pos_bounds(sorted, key(s.last()), key, 0);
    }
}

proof fn lemma_insert_pos_map<T, U>(s: Seq<T>, k: int, f: spec_fn(T) -> U, k1: spec_fn(T) -> int, k2: spec_fn(U) -> int, i: int)
    requires
        forall|x: T| #[trigger] k2(f(x)) == k1(x),
    ensures
        insert_pos(s.map_values(f), k, k2, i) == insert_pos(s, k, k1, i),
    decreases s.len() - i,
{
    if 0 <= i < s.len() {
        assert(s.map_values(f)[i] == f(s[i]));
        assert(k2(f(s[i])) == k1(s[i]));
        if k1(s[i]) <= k {
            lemma_insert_pos_map(s, k, f, k1, k2, i + 1);
        }
    }
}

/// Sorting and then mapping each record gives what mapping and then sorting gives, when the
/// map keeps each record's key.
pub proof fn lemma_stable_sort_map<T, U>(s: Seq<T>, f: spec_fn(T) -> U, k1: spec_fn(T) -> int, k2: spec_fn(U) -> int)
    requires
        forall|x: T| #[trigger] k2(f(x)) == k1(x),
    ensures
        stable_sort(s, k1).map_values(f) == stable_sort(s.map_values(f), k2),
    decreases s.len(),
{
    if s.len() > 0 {
        let t = s.map_values(f);
        assert(t.drop_last() =~= s.drop_last().map_values(f));
        assert(t.last() == f(s.last()));
        lemma_stable_sort_map(s.drop_last(), f, k1, k2);
        let sorted = stable_sort(s.drop_last(), k1);
        let p = insert_pos(sorted, k1(s.last()), k1, 0);
        lemma_insert_pos_map(sorted, k1(s.last()), f, k1, k2, 0);
        lemma_insert_pos_bounds(sorted, k1(s.last()), k1, 0);
        assert(k2(f(s.last())) == k1(s.last()));
        assert(sorted.insert(p, s.last()).map_values(f) =~= sorted.map_values(f).insert(p, f(s.last())));
    }
}

/// Records already ordered by key come out of the stable sort unchanged.
pub proof fn lemma_stable_sort_sorted<T>(s: Seq<T>, key: spec_fn(T) -> int)
    requires
        forall|i: int, j: int| 0 <= i <= j < s.len() ==> key(#[trigger] s[i]) <= key(#[trigger] s[j]),
    ensures
        stable_sort(s, key) == s,
    decreases s.len(),
{
    if s.len() > 0 {
        let d = s.drop_last();
        assert forall|i: int, j: int| 0 <= i <= j < d.len() implies key(#[trigger] d[i]) <= key(#[trigger] d[j]) by {
            assert(d[i] == s[i] && d[j] == s[j]);
        }
        lemma_stable_sort_sorted(d, key);
        lemma_insert_pos_last(d, key(s.last()), key, 0);
        assert(d.insert(d.len() as int, s.last()) =~= s);
    }
}

proof fn lemma_insert_pos_last<T>(s: Seq<T>, k: int, key: spec_fn(T) -> int, i: int)
    requires
        0 <= i <= s.len(),
        forall|j: int| 0 <= j < s.len() ==> key(#[trigger] s[j]) <= k,
    ensures
        insert_pos(s, k, key, i) == s.len(),
    decreases s.len() - i,
{
    if i < s.len() {
        assert(key(s[i]) <= k);
        lemma_insert_pos_last(s, k, key, i + 1);
    }
}

proof fn lemma_insert_pos_props<T>(s: Seq<T>, k: int, key: spec_fn(T) -> int, i: int)
    requires
        0 <= i <= s.len(),
    ensures
        i <= insert_pos(s, k, key, i) <= s.len(),
        forall|j: int| i <= j < insert_pos(s, k, key, i) ==> key(#[trigger] s[j]) <= k,
        insert_pos(s, k, key, i) < s.len() ==> key(s[insert_pos(s, k, key, i)]) > k,
    decreases s.len() - i,
{
    if i < s.len() && key(s[i]) <= k {
        lemma_insert_pos_props(s, k, key, i + 1);
    }
}

/// The stable sort orders records by key.
/// Sorting only reorders: the sorted sequence holds the same records, each as often.
pub proof fn lemma_stable_sort_permutes<T>(s: Seq<T>, key: spec_fn(T) -> int)
    ensures
        stable_sort(s, key).to_multiset() == s.to_multiset(),
    decreases s.len(),
{
    if s.len() > 0 {
        let d = s.drop_last();
        let t = stable_sort(d, key);
        lemma_stable_sort_permutes(d, key);
        lemma_stable_sort_len(d, key);
        let pos = insert_pos(t, key(s.last()), key, 0);
        lemma_insert_pos_bounds(t, key(s.last()), key, 0);
        vstd::seq_lib::to_multiset_insert(t, pos, s.last());
        d.to_multiset_ensures();
        assert(d.push(s.last()) =~= s);
    }
}

/// What holds of every record holds of every record of the sorted sequence: sorting only
/// reorders.
pub proof fn lemma_stable_sort_keeps<T>(s: Seq<T>, key: spec_fn(T) -> int, p: spec_fn(T) -> bool)
    requires
        forall|k: int| 0 <= k < s.len() ==> p(#[trigger] s[k]),
    ensures
        forall|k: int| 0 <= k < stable_sort(s, key).len() ==> p(#[trigger] stable_sort(s, key)[k]),
    decreases s.len(),
{
    if s.len() > 0 {
        let t = stable_sort(s.drop_last(), key);
        lemma_stable_sort_keeps(s.drop_last(), key, p);
        lemma_stable_sort_len(s.drop_last(), key);
        let pos = insert_pos(t, key(s.last()), key, 0);
        lemma_insert_pos_bounds(t, key(s.last()), key, 0);
        let r = t.insert(pos, s.last());
        assert(p(s[s.len() - 1]));
        assert forall|k: int| 0 <= k < r.len() implies p(#[trigger] r[k]) by {
            if k < pos {
                assert(r[k] == t[k]);
            } else if k > pos {
                assert(r[k] == t[k - 1]);
            }
        }
    }
}

pub proof fn lemma_stable_sort_orders<T>(s: Seq<T>, key: spec_fn(T) -> int)
    ensures
        forall|i: int, j: int| 0 <= i <= j < stable_sort(s, key).len() ==>
            key(#[trigger] stable_sort(s, key)[i]) <= key(#[trigger] stable_sort(s, key)[j]),
    decreases s.len(),
{
    if s.len() > 0 {
        let t = stable_sort(s.drop_last(), key);
        lemma_stable_sort_orders(s.drop_last(), key);
        let k = key(s.last());
        let p = insert_pos(t, k, key, 0);
        lemma_insert_pos_props(t, k, key, 0);
        let r = t.insert(p, s.last());
        assert(r == stable_sort(s, key));
        assert forall|i: int, j: int| 0 <= i <= j < r.len() implies key(#[trigger] r[i]) <= key(#[trigger] r[j]) by {
            if j < p {
                assert(r[i] == t[i] && r[j] == t[j]);
            } else if j == p {
                if i < p {
                    assert(r[i] == t[i]);
                }
            } else if i > p {
                assert(r[i] == t[i - 1] && r[j] == t[j - 1]);
            } else if i == p {
                assert(r[j] == t[j - 1]);
                assert(key(t[p]) > k);
                assert(key(t[p]) <= key(t[j - 1]));
            } else {
                assert(r[i] == t[i] && r[j] == t[j - 1]);
            }
        }
    }
}

/// Every record the stable sort gives out has the key of some record it was given.
proof fn lemma_stable_sort_keys<T>(s: Seq<T>, key: spec_fn(T) -> int)
    ensures
        forall|i: int| 0 <= i < stable_sort(s, key).len() ==> exists|j: int| 0 <= j < s.len() && key(#[trigger] s[j]) == key(#[trigger] stable_sort(s, key)[i]),
    decreases s.len(),
{
    if s.len() > 0 {
        let d = s.drop_last();
        let t = stable_sort(d, key);
        lemma_stable_sort_keys(d, key);
        lemma_insert_pos_bounds(t, key(s.last()), key, 0);
        let p = insert_pos(t, key(s.last()), key, 0);
        let r = t.insert(p, s.last());
        assert forall|i: int| 0 <= i < r.len() implies exists|j: int| 0 <= j < s.len() && key(#[trigger] s[j]) == key(#[trigger] r[i]) by {
            if i == p {
                assert(key(s[s.len() - 1]) == key(r[i]));
            } else {
                let ti = if i < p { i } else { i - 1 };
                assert(r[i] == t[ti]);
                let j = choose|j: int| 0 <= j < d.len() && key(#[trigger] d[j]) == key(#[trigger] t[ti]);
                assert(d[j] == s[j]);
            }
        }
    }
}

/// Keys that are all different.
pub open spec fn distinct_keys<T>(s: Seq<T>, key: spec_fn(T) -> int) -> bool {
    forall|i: int, j: int| 0 <= i < j < s.len() ==> key(#[trigger] s[i]) != key(#[trigger] s[j])
}

/// The stable sort keeps keys all different.
pub proof fn lemma_stable_sort_distinct<T>(s: Seq<T>, key: spec_fn(T) -> int)
    requires
        distinct_keys(s, key),
    ensures
        distinct_keys(stable_sort(s, key), key),
    decreases s.len(),
{
    if s.len() > 0 {
        let d = s.drop_last();
        assert(distinct_keys(d, key)) by {
            assert forall|i: int, j: int| 0 <= i < j < d.len() implies key(#[trigger] d[i]) != key(#[trigger] d[j]) by {
                assert(d[i] == s[i] && d[j] == s[j]);
            }
        }
        lemma_stable_sort_distinct(d, key);
        let t = stable_sort(d, key);
        lemma_stable_sort_keys(d, key);
        lemma_insert_pos_bounds(t, key(s.last()), key, 0);
        let p = insert_pos(t, key(s.last()), key, 0);
        let r = t.insert(p, s.last());
        assert forall|i: int| 0 <= i < t.len() implies key(#[trigger] t[i]) != key(s.last()) by {
            let j = choose|j: int| 0 <= j < d.len() && key(#[trigger] d[j]) == key(#[trigger] t[i]);
            assert(d[j] == s[j]);
            assert(key(s[j]) != key(s[s.len() - 1]));
        }
        assert forall|i: int, j: int| 0 <= i < j < r.len() implies key(#[trigger] r[i]) != key(#[trigger] r[j]) by {
            if j < p {
                assert(r[i] == t[i] && r[j] == t[j]);
            } else if j == p {
                assert(r[i] == t[i]);
            } else if i > p {
                assert(r[i] == t[i - 1] && r[j] == t[j - 1]);
            } else if i == p {
                assert(r[j] == t[j - 1]);
            } else {
                assert(r[i] == t[i] && r[j] == t[j - 1]);
            }
        }
    }
}

/// Records whose keys strictly fall along the sequence come out of the stable sort reversed.
pub proof fn lemma_stable_sort_descending<T>(s: Seq<T>, key: spec_fn(T) -> int)
    requires
        forall|i: int, j: int| 0 <= i < j < s.len() ==> key(#[trigger] s[i]) > key(#[trigger] s[j]),
    ensures
        stable_sort(s, key) == s.reverse(),
    decreases s.len(),
{
    if s.len() > 0 {
        let d = s.drop_last();
        assert forall|i: int, j: int| 0 <= i < j < d.len() implies key(#[trigger] d[i]) > key(#[trigger] d[j]) by {
            assert(d[i] == s[i] && d[j] == s[j]);
        }
        lemma_stable_sort_descending(d, key);
        let t = stable_sort(d, key);
        if t.len() > 0 {
            assert(t[0] == d[d.len() - 1]);
            assert(key(t[0]) > key(s.last()));
        }
        assert(insert_pos(t, key(s.last()), key, 0) == 0);
        assert(t.insert(0, s.last()) =~= s.reverse());
    }
}

/// Records with an integer by which they are ordered.
pub trait SortKey {
    spec fn spec_sort_key(&self) -> int;

    fn sort_key(&self) -> (k: i128)
        ensures
            k as int == self.spec_sort_key(),
    ;
}

pub open spec fn by_sort_key<T: SortKey>() -> spec_fn(T) -> int {
    |x: T| x.spec_sort_key()
}

/// Orders records by their key with an insertion sort; records with equal keys keep their order.
pub fn stable_sort_vec<T: SortKey>(v: Vec<T>) -> (res: Vec<T>)
    ensures
        res@ == stable_sort(v@, by_sort_key::<T>()),
{
    let ghost orig = v@;
    let ghost n = orig.len();
    let mut pending = reversed(v);
    let mut out: Vec<T> = Vec::new();
    let ghost mut i: int = 0;
    assert(orig.subrange(0, 0) =~= Seq::<T>::empty());
    while pending.len() > 0
        invariant
            n == orig.len(),
            0 <= i <= n,
            pending@.len() == n - i,
            forall|j: int| 0 <= j < pending@.len() ==> pending@[j] == orig[n - 1 - j],
            out@ == stable_sort(orig.subrange(0, i), by_sort_key::<T>()),
        decreases pending@.len(),
    {
        let x = pending.pop().unwrap();
        assert(x == orig[i]);
        let k = x.sort_key();
        let mut pos: usize = 0;
        while pos < out.len() && out[pos].sort_key() <= k
            invariant
                pos <= out@.len(),
                k as int == x.spec_sort_key(),
                insert_pos(out@, k as int, by_sort_key::<T>(), 0) == insert_pos(out@, k as int, by_sort_key::<T>(), pos as int),
            decreases out@.len() - pos,
        {
            pos = pos + 1;
        }
        proof {
            let pre = orig.subrange(0, i + 1);
            assert(pre.drop_last() =~= orig.subrange(0, i));
            assert(pre.last() == x);
        }
        out.insert(pos, x);
        proof {
            i = i + 1;
        }
    }
    assert(orig.subrange(0, orig.len() as int) =~= orig);
    out
}

/// The records in reverse order, taken from the back one by one.
pub fn reversed<T>(v: Vec<T>) -> (res: Vec<T>)
    ensures
        res@ == v@.reverse(),
{
    let ghost orig = v@;
    let ghost n = orig.len();
    let mut src = v;
    let mut out: Vec<T> = Vec::new();
    while src.len() > 0
        invariant
            n == orig.len(),
            out@.len() <= n,
            src@ == orig.subrange(0, n - out@.len()),
            forall|j: int| 0 <= j < out@.len() ==> out@[j] == orig[n - 1 - j],
        decreases src@.len(),
    {
        let ghost m = out@.len();
        let x = src.pop().unwrap();
        proof {
            assert(src@ =~= orig.subrange(0, n - m - 1));
        }
        out.push(x);
    }
    assert(out@ =~= orig.reverse());
    out
}

} // verus!
