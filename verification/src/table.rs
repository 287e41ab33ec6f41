//! In-memory tables of records keyed by a string id, kept in insertion
//! order with no id twice.
use vstd::prelude::*;
use crate::text::str_eq;

verus! {

broadcast use vstd::string::group_string_axioms;

/// A record stored under a string id.
pub trait Record: Sized {
    /// The id the record is stored under.
    spec fn key(&self) -> Seq<char>;

    /// The two records hold the same values.
    spec fn same(&self, other: &Self) -> bool;

    /// The id, as a string slice.
    fn key_str(&self) -> (r: &str)
        ensures
            r@ == self.key(),
    ;

    /// A copy of the record.
    fn duplicate(&self) -> (r: Self)
        ensures
            r.same(self),
            r.key() == self.key(),
    ;
}

/// No two records share an id.
pub open spec fn keys_distinct<T: Record>(s: Seq<T>) -> bool {
    forall|i: int, j: int| 0 <= i < s.len() && 0 <= j < s.len() && i != j ==> #[trigger] s[i].key() != #[trigger] s[j].key()
}

/// Some record has this id.
pub open spec fn has_key<T: Record>(s: Seq<T>, k: Seq<char>) -> bool {
    exists|i: int| 0 <= i < s.len() && #[trigger] s[i].key() == k
}

/// The position of the record with this id.
pub open spec fn key_index<T: Record>(s: Seq<T>, k: Seq<char>) -> int {
    choose|i: int| 0 <= i < s.len() && #[trigger] s[i].key() == k
}

/// The record with this id.
pub open spec fn lookup_key<T: Record>(s: Seq<T>, k: Seq<char>) -> Option<T> {
    if has_key(s, k) {
        Some(s[key_index(s, k)])
    } else {
        None
    }
}

/// The records with `x` stored: in place of the one with its id, or added last.
pub open spec fn put_record<T: Record>(s: Seq<T>, x: T) -> Seq<T> {
    if has_key(s, x.key()) {
        s.update(key_index(s, x.key()), x)
    } else {
        s.push(x)
    }
}

/// The records without the one with this id.
pub open spec fn drop_key<T: Record>(s: Seq<T>, k: Seq<char>) -> Seq<T> {
    if has_key(s, k) {
        s.remove(key_index(s, k))
    } else {
        s
    }
}

/// With distinct ids, the record at position `i` is the one its id names.
pub proof fn lemma_key_index<T: Record>(s: Seq<T>, i: int)
    requires
        keys_distinct(s),
        0 <= i < s.len(),
    ensures
        has_key(s, s[i].key()),
        key_index(s, s[i].key()) == i,
        lookup_key(s, s[i].key()) == Some(s[i]),
{
    assert(s[i].key() == s[i].key());
    let k = key_index(s, s[i].key());
    if k != i {
        assert(s[k].key() != s[i].key());
    }
}

/// Replacing a record by one with the same id keeps the ids distinct.
pub proof fn lemma_update_same_key<T: Record>(s: Seq<T>, i: int, x: T)
    requires
        keys_distinct(s),
        0 <= i < s.len(),
        x.key() == s[i].key(),
    ensures
        keys_distinct(s.update(i, x)),
{
    let t = s.update(i, x);
    assert forall|a: int, b: int| 0 <= a < t.len() && 0 <= b < t.len() && a != b implies #[trigger] t[a].key()
        != #[trigger] t[b].key() by {
        assert(t[a].key() == s[a].key());
        assert(t[b].key() == s[b].key());
    }
}

/// Removing a record keeps the ids distinct.
pub proof fn lemma_remove_keeps_distinct<T: Record>(s: Seq<T>, i: int)
    requires
        keys_distinct(s),
        0 <= i < s.len(),
    ensures
        keys_distinct(s.remove(i)),
{
    let t = s.remove(i);
    assert forall|a: int, b: int| 0 <= a < t.len() && 0 <= b < t.len() && a != b implies #[trigger] t[a].key()
        != #[trigger] t[b].key() by {
        let oa = if a < i { a } else { a + 1 };
        let ob = if b < i { b } else { b + 1 };
        assert(t[a] == s[oa]);
        assert(t[b] == s[ob]);
    }
}

/// A read after a write: once a record is stored, looking up its id gives
/// that record, every other id gives what it gave before, and the ids stay
/// distinct.
pub proof fn law_lookup_after_put<T: Record>(s: Seq<T>, x: T, k: Seq<char>)
    requires
        keys_distinct(s),
    ensures
        keys_distinct(put_record(s, x)),
        lookup_key(put_record(s, x), x.key()) == Some(x),
        k != x.key() ==> lookup_key(put_record(s, x), k) == lookup_key(s, k),
{
    let t = put_record(s, x);
    if has_key(s, x.key()) {
        let i = key_index(s, x.key());
        lemma_update_same_key(s, i, x);
        lemma_key_index(t, i);
        if k != x.key() && has_key(s, k) {
            let j = key_index(s, k);
            assert(t[j] == s[j]);
            lemma_key_index(t, j);
        }
        if k != x.key() && has_key(t, k) {
            let j = key_index(t, k);
            assert(t[j] == s[j]);
        }
    } else {
        assert forall|a: int, b: int| 0 <= a < t.len() && 0 <= b < t.len() && a != b implies #[trigger] t[a].key()
            != #[trigger] t[b].key() by {
            if a == s.len() {
                assert(t[b] == s[b]);
            } else if b == s.len() {
                assert(t[a] == s[a]);
            } else {
                assert(t[a] == s[a] && t[b] == s[b]);
            }
        }
        lemma_key_index(t, s.len() as int);
        if k != x.key() && has_key(s, k) {
            let j = key_index(s, k);
            assert(t[j] == s[j]);
            lemma_key_index(t, j);
        }
        if k != x.key() && has_key(t, k) {
            let j = key_index(t, k);
            assert(j != s.len());
            assert(t[j] == s[j]);
        }
    }
}

/// A read after a removal: once an id is dropped, looking it up gives
/// nothing, every other id gives what it gave before, and the ids stay
/// distinct.
pub proof fn law_lookup_after_drop<T: Record>(s: Seq<T>, k: Seq<char>, other: Seq<char>)
    requires
        keys_distinct(s),
    ensures
        keys_distinct(drop_key(s, k)),
        lookup_key(drop_key(s, k), k) is None,
        other != k ==> lookup_key(drop_key(s, k), other) == lookup_key(s, other),
{
    let t = drop_key(s, k);
    if has_key(s, k) {
        let i = key_index(s, k);
        lemma_remove_keeps_distinct(s, i);
        assert(s[i].key() == k);
        if has_key(t, k) {
            let j = key_index(t, k);
            let oj = if j < i { j } else { j + 1 };
            assert(t[j] == s[oj]);
        }
        if other != k && has_key(s, other) {
            let j = key_index(s, other);
            assert(j != i);
            let tj = if j < i { j } else { j - 1 };
            assert(t[tj] == s[j]);
            lemma_key_index(t, tj);
        }
        if other != k && has_key(t, other) {
            let j = key_index(t, other);
            let oj = if j < i { j } else { j + 1 };
            assert(t[j] == s[oj]);
            lemma_key_index(s, oj);
        }
    }
}

/// The position of the record with this id.
pub fn find_key<T: Record>(v: &Vec<T>, k: &str) -> (r: Option<usize>)
    requires
        keys_distinct(v@),
    ensures
        match r {
            Some(i) => i < v@.len() && has_key(v@, k@) && i == key_index(v@, k@) && v@[i as int].key() == k@,
            None => !has_key(v@, k@),
        },
{
    let mut i: usize = 0;
    while i < v.len()
        invariant
            keys_distinct(v@),
            i <= v@.len(),
            forall|j: int| 0 <= j < i ==> #[trigger] v@[j].key() != k@,
        decreases v.len() - i,
    {
        if str_eq(v[i].key_str(), k) {
            proof {
                lemma_key_index(v@, i as int);
            }
            return Some(i);
        }
        i = i + 1;
    }
    None
}

/// Store a record: it replaces the one with its id, or is added last.
pub fn put<T: Record>(v: &mut Vec<T>, x: T)
    requires
        keys_distinct(old(v)@),
    ensures
        keys_distinct(final(v)@),
        final(v)@ == put_record(old(v)@, x),
{
    let ghost s = v@;
    let ghost xv = x;
    match find_key(v, x.key_str()) {
        Some(i) => {
            proof {
                lemma_update_same_key(s, i as int, xv);
            }
            v.set(i, x);
        },
        None => {
            v.push(x);
            assert forall|a: int, b: int|
                0 <= a < v@.len() && 0 <= b < v@.len() && a != b implies #[trigger] v@[a].key()
                != #[trigger] v@[b].key() by {
                if a == s.len() {
                    assert(v@[b] == s[b]);
                } else if b == s.len() {
                    assert(v@[a] == s[a]);
                } else {
                    assert(v@[a] == s[a] && v@[b] == s[b]);
                }
            }
        },
    }
}

/// Remove the record with this id, and return it.
pub fn take<T: Record>(v: &mut Vec<T>, k: &str) -> (r: Option<T>)
    requires
        keys_distinct(old(v)@),
    ensures
        keys_distinct(final(v)@),
        r == lookup_key(old(v)@, k@),
        final(v)@ == drop_key(old(v)@, k@),
{
    let ghost s = v@;
    match find_key(v, k) {
        Some(i) => {
            proof {
                lemma_key_index(s, i as int);
                lemma_remove_keeps_distinct(s, i as int);
            }
            let x = v.remove(i);
            Some(x)
        },
        None => None,
    }
}

/// A copy of the record with this id.
pub fn get_copy<T: Record>(v: &Vec<T>, k: &str) -> (r: Option<T>)
    requires
        keys_distinct(v@),
    ensures
        r is Some == has_key(v@, k@),
        r matches Some(x) ==> x.same(&v@[key_index(v@, k@)]) && x.key() == k@,
{
    match find_key(v, k) {
        Some(i) => {
            proof {
                lemma_key_index(v@, i as int);
            }
            Some(v[i].duplicate())
        },
        None => None,
    }
}

/// How many records a page from `offset` of at most `limit` holds.
pub open spec fn page_len(n: int, offset: int, limit: int) -> int {
    if offset >= n {
        0
    } else if limit >= n - offset {
        n - offset
    } else {
        limit
    }
}

/// Copies of the records from position `offset`, at most `limit` of them.
pub fn page<T: Record>(v: &Vec<T>, offset: usize, limit: usize) -> (r: Vec<T>)
    ensures
        r@.len() == page_len(v@.len() as int, offset as int, limit as int),
        forall|i: int| 0 <= i < r@.len() ==> #[trigger] r@[i].same(&v@[offset + i]),
{
    let mut out: Vec<T> = Vec::new();
    if offset >= v.len() {
        return out;
    }
    let end: usize = if limit >= v.len() - offset {
        v.len()
    } else {
        offset + limit
    };
    let mut i: usize = offset;
    while i < end
        invariant
            offset <= i <= end <= v@.len(),
            end == offset + page_len(v@.len() as int, offset as int, limit as int),
            out@.len() == i - offset,
            forall|j: int| 0 <= j < out@.len() ==> #[trigger] out@[j].same(&v@[offset + j]),
        decreases end - i,
    {
        out.push(v[i].duplicate());
        i = i + 1;
    }
    out
}


/// The items of `v` whose flag is set, in order.
pub open spec fn flagged<T>(v: Seq<T>, keep: Seq<bool>) -> Seq<T>
    decreases v.len(),
{
    if v.len() == 0 || keep.len() != v.len() {
        Seq::empty()
    } else {
        let r = flagged(v.drop_last(), keep.drop_last());
        if keep.last() {
            r.push(v.last())
        } else {
            r
        }
    }
}

/// Flags that say which items satisfy `p` pick what `filter(p)` keeps.
pub proof fn lemma_flagged_filter<T>(v: Seq<T>, keep: Seq<bool>, p: spec_fn(T) -> bool)
    requires
        keep.len() == v.len(),
        forall|i: int| 0 <= i < v.len() ==> #[trigger] keep[i] == p(v[i]),
    ensures
        flagged(v, keep) == v.filter(p),
    decreases v.len(),
{
    reveal(Seq::filter);
    if v.len() > 0 {
        let v2 = v.drop_last();
        let k2 = keep.drop_last();
        assert forall|i: int| 0 <= i < v2.len() implies #[trigger] k2[i] == p(v2[i]) by {
            assert(k2[i] == keep[i] && v2[i] == v[i]);
        }
        lemma_flagged_filter(v2, k2, p);
        assert(keep.last() == p(v.last()));
    }
}

/// Copies of the records whose flag is set, in order.
pub fn copy_flagged<T: Record>(v: &Vec<T>, keep: &Vec<bool>) -> (r: Vec<T>)
    requires
        keep@.len() == v@.len(),
    ensures
        r@.len() == flagged(v@, keep@).len(),
        forall|i: int| 0 <= i < r@.len() ==> #[trigger] r@[i].same(&flagged(v@, keep@)[i]),
{
    let mut out: Vec<T> = Vec::new();
    let mut i: usize = 0;
    while i < v.len()
        invariant
            keep@.len() == v@.len(),
            i <= v@.len(),
            out@.len() == flagged(v@.subrange(0, i as int), keep@.subrange(0, i as int)).len(),
            forall|j: int| 0 <= j < out@.len() ==> #[trigger] out@[j].same(
                &flagged(v@.subrange(0, i as int), keep@.subrange(0, i as int))[j],
            ),
        decreases v.len() - i,
    {
        let ghost vs = v@.subrange(0, i + 1);
        let ghost ks = keep@.subrange(0, i + 1);
        assert(vs.drop_last() =~= v@.subrange(0, i as int));
        assert(ks.drop_last() =~= keep@.subrange(0, i as int));
        let ghost before = out@;
        let ghost f = flagged(v@.subrange(0, i as int), keep@.subrange(0, i as int));
        if keep[i] {
            out.push(v[i].duplicate());
            assert forall|j: int| 0 <= j < out@.len() implies #[trigger] out@[j].same(&flagged(vs, ks)[j]) by {
                if j < before.len() {
                    assert(out@[j] == before[j]);
                    assert(flagged(vs, ks)[j] == f[j]);
                }
            }
        } else {
            assert forall|j: int| 0 <= j < out@.len() implies #[trigger] out@[j].same(&flagged(vs, ks)[j]) by {
                assert(flagged(vs, ks)[j] == f[j]);
            }
        }
        i = i + 1;
    }
    assert(v@.subrange(0, v@.len() as int) =~= v@);
    assert(keep@.subrange(0, keep@.len() as int) =~= keep@);
    out
}


/// The characters of each string.
pub open spec fn views_of(v: Seq<String>) -> Seq<Seq<char>> {
    v.map_values(|s: String| s@)
}

/// The distinct keys, in the order they first appear.
pub open spec fn first_appearances(keys: Seq<Seq<char>>) -> Seq<Seq<char>>
    decreases keys.len(),
{
    if keys.len() == 0 {
        Seq::empty()
    } else {
        let t = first_appearances(keys.drop_last());
        if t.contains(keys.last()) {
            t
        } else {
            t.push(keys.last())
        }
    }
}

/// Whether a list of strings holds one with these characters.
pub fn holds_string(v: &Vec<String>, k: &str) -> (b: bool)
    ensures
        b == views_of(v@).contains(k@),
{
    let mut i: usize = 0;
    while i < v.len()
        invariant
            i <= v@.len(),
            forall|j: int| 0 <= j < i ==> (#[trigger] v@[j])@ != k@,
        decreases v.len() - i,
    {
        if str_eq(v[i].as_str(), k) {
            assert(views_of(v@)[i as int] == k@);
            return true;
        }
        i = i + 1;
    }
    assert forall|j: int| 0 <= j < views_of(v@).len() implies #[trigger] views_of(v@)[j] != k@ by {
        assert(views_of(v@)[j] == v@[j]@);
    }
    false
}

/// The distinct strings of a list, in the order they first appear.
pub fn distinct_strings(keys: &Vec<String>) -> (r: Vec<String>)
    ensures
        views_of(r@) == first_appearances(views_of(keys@)),
{
    let mut out: Vec<String> = Vec::new();
    let mut i: usize = 0;
    while i < keys.len()
        invariant
            i <= keys@.len(),
            views_of(out@) == first_appearances(views_of(keys@.subrange(0, i as int))),
        decreases keys.len() - i,
    {
        assert(views_of(keys@.subrange(0, i + 1)).drop_last() =~= views_of(keys@.subrange(0, i as int)));
        assert(views_of(keys@.subrange(0, i + 1)).last() == keys@[i as int]@);
        if !holds_string(&out, keys[i].as_str()) {
            let ghost before = out@;
            out.push(keys[i].clone());
            assert(views_of(out@) =~= views_of(before).push(keys@[i as int]@));
        }
        i = i + 1;
    }
    assert(keys@.subrange(0, keys@.len() as int) =~= keys@);
    out
}


/// The keys equal to `k`.
pub open spec fn equal_to(k: Seq<char>) -> spec_fn(Seq<char>) -> bool {
    |x: Seq<char>| x == k
}

/// Each distinct key, in the order it first appears, with how often it occurs.
pub open spec fn tally_of(keys: Seq<Seq<char>>) -> Seq<(Seq<char>, int)> {
    first_appearances(keys).map_values(|k: Seq<char>| (k, keys.filter(equal_to(k)).len() as int))
}

/// A list of strings with counts, by its values.
pub open spec fn counts_view(v: Seq<(String, usize)>) -> Seq<(Seq<char>, int)> {
    v.map_values(|e: (String, usize)| (e.0@, e.1 as int))
}

/// How often a string occurs in a list.
pub fn occurrences(keys: &Vec<String>, k: &str) -> (c: usize)
    ensures
        c == views_of(keys@).filter(equal_to(k@)).len(),
{
    let ghost v = views_of(keys@);
    let mut c: usize = 0;
    let mut j: usize = 0;
    while j < keys.len()
        invariant
            v == views_of(keys@),
            j <= keys@.len(),
            c == v.subrange(0, j as int).filter(equal_to(k@)).len(),
            c <= j,
        decreases keys.len() - j,
    {
        proof {
            reveal(Seq::filter);
        }
        assert(v.subrange(0, j + 1).drop_last() =~= v.subrange(0, j as int));
        assert(v.subrange(0, j + 1).last() == keys@[j as int]@);
        if str_eq(keys[j].as_str(), k) {
            c = c + 1;
        }
        j = j + 1;
    }
    assert(v.subrange(0, v.len() as int) =~= v);
    c
}

/// Each distinct string, in the order it first appears, with its count.
pub fn tally_strings(keys: &Vec<String>) -> (r: Vec<(String, usize)>)
    ensures
        counts_view(r@) == tally_of(views_of(keys@)),
{
    let d = distinct_strings(keys);
    let ghost dv = views_of(d@);
    let mut out: Vec<(String, usize)> = Vec::new();
    let mut k: usize = 0;
    while k < d.len()
        invariant
            dv == views_of(d@),
            dv == first_appearances(views_of(keys@)),
            k <= d@.len(),
            out@.len() == k,
            forall|j: int| 0 <= j < k ==> (#[trigger] out@[j]).0@ == dv[j] && out@[j].1 as int == views_of(keys@).filter(
                equal_to(dv[j]),
            ).len(),
        decreases d.len() - k,
    {
        assert(d@[k as int]@ == dv[k as int]);
        let c = occurrences(keys, d[k].as_str());
        out.push((d[k].clone(), c));
        k = k + 1;
    }
    assert(counts_view(out@) =~= tally_of(views_of(keys@)));
    out
}

} // verus!
