//! Ordering items by a key (a count, a time), highest first, keeping the original order
//! among equal counts, and cutting the list at a limit.
use vstd::prelude::*;

verus! {

/// Position `a` comes before position `b`: a higher count, or the same
/// count and an earlier position.
pub open spec fn ranks_before(counts: Seq<i128>, a: int, b: int) -> bool {
    counts[a] > counts[b] || (counts[a] == counts[b] && a < b)
}

/// `r` is the head of `counts`' positions in ranking order, at most `limit`
/// long: distinct positions, each before the next, every position left out
/// ranked after every one kept, and fewer than `limit` only when none is
/// left out.
pub open spec fn ranked_top(counts: Seq<i128>, limit: int, r: Seq<usize>) -> bool {
    &&& r.len() <= limit
    &&& forall|k: int| 0 <= k < r.len() ==> #[trigger] r[k] < counts.len()
    &&& forall|a: int, b: int| 0 <= a < b < r.len() ==> ranks_before(counts, #[trigger] r[a] as int, #[trigger] r[b] as int)
    &&& forall|j: usize, k: int|
        #![trigger r.contains(j), r[k]]
        j < counts.len() && !r.contains(j) && 0 <= k < r.len() ==> ranks_before(counts, r[k] as int, j as int)
    &&& r.len() < limit ==> forall|j: usize| j < counts.len() ==> #[trigger] r.contains(j)
}

/// The positions of `counts` in ranking order, at most `limit` of them.
pub fn rank_by_count(counts: &Vec<i128>, limit: usize) -> (r: Vec<usize>)
    ensures
        ranked_top(counts@, limit as int, r@),
{
    let n = counts.len();
    let mut taken: Vec<bool> = Vec::new();
    while taken.len() < n
        invariant
            taken@.len() <= n,
            forall|j: int| 0 <= j < taken@.len() ==> !#[trigger] taken@[j],
        decreases n - taken.len(),
    {
        taken.push(false);
    }
    let mut out: Vec<usize> = Vec::new();
    while out.len() < limit
        invariant
            n == counts@.len(),
            taken@.len() == n,
            out@.len() <= limit,
            forall|j: int| 0 <= j < n ==> (#[trigger] taken@[j] <==> out@.contains(j as usize)),
            forall|k: int| 0 <= k < out@.len() ==> #[trigger] out@[k] < n,
            forall|a: int, b: int| 0 <= a < b < out@.len() ==> ranks_before(counts@, #[trigger] out@[a] as int, #[trigger] out@[b] as int),
            forall|j: usize, k: int|
                #![trigger out@.contains(j), out@[k]]
                j < n && !out@.contains(j) && 0 <= k < out@.len() ==> ranks_before(counts@, out@[k] as int, j as int),
        decreases limit - out.len(),
    {
        let mut best: Option<usize> = None;
        let mut i: usize = 0;
        while i < n
            invariant
                n == counts@.len(),
                taken@.len() == n,
                i <= n,
                match best {
                    None => forall|j: int| 0 <= j < i ==> #[trigger] taken@[j],
                    Some(b) => b < i && !taken@[b as int] && forall|j: int|
                        0 <= j < i && !#[trigger] taken@[j] && j != b ==> ranks_before(counts@, b as int, j),
                },
            decreases n - i,
        {
            if !taken[i] {
                match best {
                    None => {
                        best = Some(i);
                    },
                    Some(b) => {
                        if counts[i] > counts[b] {
                            best = Some(i);
                        }
                    },
                }
            }
            i = i + 1;
        }
        match best {
            None => {
                assert forall|j: usize| j < counts@.len() implies #[trigger] out@.contains(j) by {
                    assert(taken@[j as int]);
                }
                return out;
            },
            Some(b) => {
                let ghost before = out@;
                assert(!before.contains(b));
                out.push(b);
                taken.set(b, true);
                assert forall|j: int| 0 <= j < n implies (#[trigger] taken@[j] <==> out@.contains(j as usize)) by {
                    if j == b as int {
                        assert(out@[before.len() as int] == b);
                    } else {
                        if before.contains(j as usize) {
                            let k = choose|k: int| 0 <= k < before.len() && before[k] == j as usize;
                            assert(out@[k] == j as usize);
                        }
                        if out@.contains(j as usize) {
                            let k = choose|k: int| 0 <= k < out@.len() && out@[k] == j as usize;
                            assert(k < before.len());
                            assert(before[k] == j as usize);
                        }
                    }
                }
                assert forall|a: int, c: int| 0 <= a < c < out@.len() implies ranks_before(
                    counts@,
                    #[trigger] out@[a] as int,
                    #[trigger] out@[c] as int,
                ) by {
                    if c == before.len() {
                        assert(out@[a] == before[a]);
                    } else {
                        assert(out@[a] == before[a] && out@[c] == before[c]);
                    }
                }
                assert forall|j: usize, k: int|
                    #![trigger out@.contains(j), out@[k]]
                    j < n && !out@.contains(j) && 0 <= k < out@.len() implies ranks_before(
                    counts@,
                    out@[k] as int,
                    j as int,
                ) by {
                    assert(!taken@[j as int]);
                    if k < before.len() {
                        assert(out@[k] == before[k]);
                        if before.contains(j) {
                            let m = choose|m: int| 0 <= m < before.len() && before[m] == j;
                            assert(out@[m] == j);
                        }
                        assert(!before.contains(j));
                    } else {
                        assert(out@[k] == b);
                        assert(j != b);
                    }
                }
            },
        }
    }
    out
}


/// The usual order on prices.
pub open spec fn price_leq() -> spec_fn(i64, i64) -> bool {
    |a: i64, b: i64| a <= b
}

proof fn lemma_price_leq_total()
    ensures
        vstd::relations::total_ordering(price_leq()),
{
    let r = price_leq();
    assert(vstd::relations::reflexive(r));
    assert(vstd::relations::antisymmetric(r));
    assert(vstd::relations::transitive(r));
    assert(vstd::relations::strongly_connected(r));
}

/// The prices in ascending order.
pub fn sorted_prices(v: &Vec<i64>) -> (r: Vec<i64>)
    ensures
        r@ == v@.sort_by(price_leq()),
        r@.len() == v@.len(),
{
    broadcast use vstd::seq_lib::to_multiset_insert;
    broadcast use vstd::multiset::group_multiset_axioms;
    let mut out: Vec<i64> = Vec::new();
    let mut i: usize = 0;
    assert(out@.to_multiset() =~= v@.subrange(0, 0).to_multiset()) by {
        assert(out@ =~= Seq::<i64>::empty());
        assert(v@.subrange(0, 0) =~= Seq::<i64>::empty());
    }
    while i < v.len()
        invariant
            i <= v@.len(),
            vstd::relations::sorted_by(out@, price_leq()),
            out@.to_multiset() == v@.subrange(0, i as int).to_multiset(),
        decreases v.len() - i,
    {
        let x = v[i];
        let mut p: usize = 0;
        while p < out.len() && out[p] <= x
            invariant
                p <= out@.len(),
                forall|k: int| 0 <= k < p ==> #[trigger] out@[k] <= x,
            decreases out.len() - p,
        {
            p = p + 1;
        }
        let ghost before = out@;
        out.insert(p, x);
        assert forall|a: int, b: int| 0 <= a < b < out@.len() implies #[trigger] (price_leq())(out@[a], out@[b]) by {
            assert((price_leq())(before[0], before[0]) || true);
            if b < p {
                assert(out@[a] == before[a] && out@[b] == before[b]);
                assert((price_leq())(before[a], before[b]));
            } else if b == p {
                assert(out@[a] == before[a]);
            } else if a == p {
                assert(out@[b] == before[b - 1]);
                if p < before.len() {
                    assert(before[p as int] > x);
                    if b - 1 > p {
                        assert((price_leq())(before[p as int], before[b - 1]));
                    }
                }
            } else if a < p {
                assert(out@[a] == before[a] && out@[b] == before[b - 1]);
                assert((price_leq())(before[a], before[b - 1]));
            } else {
                assert(out@[a] == before[a - 1] && out@[b] == before[b - 1]);
                assert((price_leq())(before[a - 1], before[b - 1]));
            }
        }
        assert(v@.subrange(0, i + 1) =~= v@.subrange(0, i as int).push(x));
        assert(out@ =~= before.insert(p as int, x));
        proof {
            vstd::seq_lib::to_multiset_build(v@.subrange(0, i as int), x);
            vstd::seq_lib::to_multiset_insert(before, p as int, x);
        }
        i = i + 1;
    }
    assert(v@.subrange(0, v@.len() as int) =~= v@);
    proof {
        lemma_price_leq_total();
        v@.lemma_sort_by_ensures(price_leq());
        vstd::seq_lib::lemma_sorted_unique(out@, v@.sort_by(price_leq()), price_leq());
        vstd::seq_lib::to_multiset_len(out@);
        vstd::seq_lib::to_multiset_len(v@);
    }
    out
}


/// Strings compared by their characters' code points, a proper prefix
/// first: the order of `str`'s `cmp`.
pub open spec fn lex_lt(a: Seq<char>, b: Seq<char>) -> bool
    decreases a.len(),
{
    if a.len() == 0 {
        b.len() > 0
    } else if b.len() == 0 {
        false
    } else if a[0] != b[0] {
        (a[0] as int) < (b[0] as int)
    } else {
        lex_lt(a.drop_first(), b.drop_first())
    }
}

/// No string comes before itself.
pub proof fn lemma_lex_irreflexive(a: Seq<char>)
    ensures
        !lex_lt(a, a),
    decreases a.len(),
{
    if a.len() > 0 {
        lemma_lex_irreflexive(a.drop_first());
    }
}

/// The order is transitive.
pub proof fn lemma_lex_transitive(a: Seq<char>, b: Seq<char>, c: Seq<char>)
    requires
        lex_lt(a, b),
        lex_lt(b, c),
    ensures
        lex_lt(a, c),
    decreases a.len(),
{
    if a.len() > 0 && b.len() > 0 && c.len() > 0 && a[0] == b[0] && b[0] == c[0] {
        lemma_lex_transitive(a.drop_first(), b.drop_first(), c.drop_first());
    }
}

/// Of two different strings, one comes first.
pub proof fn lemma_lex_total(a: Seq<char>, b: Seq<char>)
    requires
        a != b,
    ensures
        lex_lt(a, b) || lex_lt(b, a),
    decreases a.len(),
{
    if a.len() > 0 && b.len() > 0 && a[0] == b[0] {
        if a.drop_first() == b.drop_first() {
            assert(a =~= seq![a[0]] + a.drop_first());
            assert(b =~= seq![b[0]] + b.drop_first());
        }
        lemma_lex_total(a.drop_first(), b.drop_first());
    } else if a.len() == 0 && b.len() == 0 {
        assert(a =~= b);
    } else if a.len() > 0 && b.len() > 0 {
        assert((a[0] as int) != (b[0] as int));
    }
}

/// Of two strings, at most one comes before the other.
pub proof fn lemma_lex_asymmetric(a: Seq<char>, b: Seq<char>)
    ensures
        !(lex_lt(a, b) && lex_lt(b, a)),
{
    if lex_lt(a, b) && lex_lt(b, a) {
        lemma_lex_transitive(a, b, a);
        lemma_lex_irreflexive(a);
    }
}

/// Whether `a` comes before `b`.
pub fn str_lt(a: &str, b: &str) -> (r: bool)
    ensures
        r == lex_lt(a@, b@),
{
    let x = crate::text::chars_of(a);
    let y = crate::text::chars_of(b);
    assert(a@.subrange(0, a@.len() as int) =~= a@);
    assert(b@.subrange(0, b@.len() as int) =~= b@);
    let mut i: usize = 0;
    while i < x.len() && i < y.len() && x[i] == y[i]
        invariant
            x@ == a@,
            y@ == b@,
            i <= x@.len(),
            i <= y@.len(),
            lex_lt(a@, b@) == lex_lt(a@.subrange(i as int, a@.len() as int), b@.subrange(i as int, b@.len() as int)),
        decreases x.len() - i,
    {
        let ghost sa = a@.subrange(i as int, a@.len() as int);
        let ghost sb = b@.subrange(i as int, b@.len() as int);
        assert(sa.drop_first() =~= a@.subrange(i + 1, a@.len() as int));
        assert(sb.drop_first() =~= b@.subrange(i + 1, b@.len() as int));
        i = i + 1;
    }
    if i == x.len() {
        i < y.len()
    } else if i == y.len() {
        false
    } else {
        x[i] < y[i]
    }
}

/// Position `a` comes before position `b` when sorting by name: a smaller
/// name (a larger one when `desc`), or the same name and an earlier position.
pub open spec fn name_before(names: Seq<Seq<char>>, desc: bool, a: int, b: int) -> bool {
    if desc {
        lex_lt(names[b], names[a]) || (names[a] == names[b] && a < b)
    } else {
        lex_lt(names[a], names[b]) || (names[a] == names[b] && a < b)
    }
}

/// `r` lists all positions of `names` sorted by name, the original order
/// kept among equal names.
pub open spec fn sorted_by_name(names: Seq<Seq<char>>, desc: bool, r: Seq<usize>) -> bool {
    &&& r.len() == names.len()
    &&& forall|j: usize| j < names.len() ==> #[trigger] r.contains(j)
    &&& forall|k: int| 0 <= k < r.len() ==> #[trigger] r[k] < names.len()
    &&& forall|a: int, b: int| 0 <= a < b < r.len() ==> name_before(names, desc, #[trigger] r[a] as int, #[trigger] r[b] as int)
}

/// The positions of `names` sorted by name, stably.
pub fn rank_by_name(names: &Vec<String>, desc: bool) -> (r: Vec<usize>)
    ensures
        sorted_by_name(names@.map_values(|s: String| s@), desc, r@),
{
    let ghost nv = names@.map_values(|s: String| s@);
    let n = names.len();
    let mut taken: Vec<bool> = Vec::new();
    while taken.len() < n
        invariant
            taken@.len() <= n,
            forall|j: int| 0 <= j < taken@.len() ==> !#[trigger] taken@[j],
        decreases n - taken.len(),
    {
        taken.push(false);
    }
    let mut out: Vec<usize> = Vec::new();
    let mut count: usize = 0;
    while count < n
        invariant
            n == names@.len(),
            nv == names@.map_values(|s: String| s@),
            taken@.len() == n,
            out@.len() == count,
            count <= n,
            forall|j: int| 0 <= j < n ==> (#[trigger] taken@[j] <==> out@.contains(j as usize)),
            forall|k: int| 0 <= k < out@.len() ==> #[trigger] out@[k] < n,
            forall|a: int, b: int| 0 <= a < b < out@.len() ==> name_before(nv, desc, #[trigger] out@[a] as int, #[trigger] out@[b] as int),
            forall|j: usize, k: int|
                #![trigger out@.contains(j), out@[k]]
                j < n && !out@.contains(j) && 0 <= k < out@.len() ==> name_before(nv, desc, out@[k] as int, j as int),
            forall|a: int, b: int| 0 <= a < b < out@.len() ==> out@[a] != out@[b],
        decreases n - count,
    {
        let mut best: Option<usize> = None;
        let mut i: usize = 0;
        while i < n
            invariant
                n == names@.len(),
                nv == names@.map_values(|s: String| s@),
                taken@.len() == n,
                i <= n,
                match best {
                    None => forall|j: int| 0 <= j < i ==> #[trigger] taken@[j],
                    Some(b) => b < i && !taken@[b as int] && forall|j: int|
                        0 <= j < i && !#[trigger] taken@[j] && j != b ==> name_before(nv, desc, b as int, j),
                },
            decreases n - i,
        {
            if !taken[i] {
                match best {
                    None => {
                        best = Some(i);
                    },
                    Some(b) => {
                        let better = if desc {
                            str_lt(names[b].as_str(), names[i].as_str())
                        } else {
                            str_lt(names[i].as_str(), names[b].as_str())
                        };
                        proof {
                            let (x, y) = (nv[b as int], nv[i as int]);
                            assert(names@[b as int]@ == x && names@[i as int]@ == y);
                            lemma_lex_asymmetric(x, y);
                            if x != y {
                                lemma_lex_total(x, y);
                            }
                            assert forall|j: int| 0 <= j < i && !#[trigger] taken@[j] && j != b implies name_before(nv, desc, if better { i as int } else { b as int }, j) by {
                                if better {
                                    assert(name_before(nv, desc, b as int, j));
                                    if desc {
                                        if lex_lt(nv[j], nv[b as int]) {
                                            lemma_lex_transitive(nv[j], nv[b as int], nv[i as int]);
                                        }
                                    } else {
                                        if lex_lt(nv[b as int], nv[j]) {
                                            lemma_lex_transitive(nv[i as int], nv[b as int], nv[j]);
                                        }
                                    }
                                }
                            }
                        }
                        if better {
                            best = Some(i);
                        }
                    },
                }
            }
            i = i + 1;
        }
        match best {
            None => {
                proof {
                    lemma_all_taken_full(out@, n as int);
                    let j = choose|j: usize| (j as int) < n && !#[trigger] out@.contains(j);
                    assert(taken@[j as int]);
                }
                assert(false);
            },
            Some(b) => {
                let ghost before = out@;
                assert(!before.contains(b));
                out.push(b);
                taken.set(b, true);
                assert forall|j: int| 0 <= j < n implies (#[trigger] taken@[j] <==> out@.contains(j as usize)) by {
                    if j == b as int {
                        assert(out@[before.len() as int] == b);
                    } else {
                        if before.contains(j as usize) {
                            let k = choose|k: int| 0 <= k < before.len() && before[k] == j as usize;
                            assert(out@[k] == j as usize);
                        }
                        if out@.contains(j as usize) {
                            let k = choose|k: int| 0 <= k < out@.len() && out@[k] == j as usize;
                            assert(k < before.len());
                            assert(before[k] == j as usize);
                        }
                    }
                }
                assert forall|a: int, c: int| 0 <= a < c < out@.len() implies name_before(
                    nv,
                    desc,
                    #[trigger] out@[a] as int,
                    #[trigger] out@[c] as int,
                ) by {
                    if c == before.len() {
                        assert(out@[a] == before[a]);
                    } else {
                        assert(out@[a] == before[a] && out@[c] == before[c]);
                    }
                }
                assert forall|a: int, c: int| 0 <= a < c < out@.len() implies out@[a] != out@[c] by {
                    if c == before.len() {
                        assert(out@[a] == before[a]);
                        assert(before.contains(before[a]));
                    } else {
                        assert(out@[a] == before[a] && out@[c] == before[c]);
                    }
                }
                assert forall|j: usize, k: int|
                    #![trigger out@.contains(j), out@[k]]
                    j < n && !out@.contains(j) && 0 <= k < out@.len() implies name_before(
                    nv,
                    desc,
                    out@[k] as int,
                    j as int,
                ) by {
                    assert(!taken@[j as int]);
                    if k < before.len() {
                        assert(out@[k] == before[k]);
                        if before.contains(j) {
                            let m = choose|m: int| 0 <= m < before.len() && before[m] == j;
                            assert(out@[m] == j);
                        }
                        assert(!before.contains(j));
                    } else {
                        assert(out@[k] == b);
                        assert(j != b);
                    }
                }
            },
        }
        count = count + 1;
    }
    proof {
        lemma_distinct_covers(out@, n as int);
    }
    out
}

/// `n` distinct positions below `n` are all of them.
proof fn lemma_distinct_covers(out: Seq<usize>, n: int)
    requires
        out.len() == n,
        forall|k: int| 0 <= k < out.len() ==> #[trigger] out[k] < n,
        forall|a: int, b: int| 0 <= a < b < out.len() ==> out[a] != out[b],
    ensures
        forall|j: usize| (j as int) < n ==> #[trigger] out.contains(j),
{
    broadcast use vstd::seq_lib::seq_to_set_is_finite;
    let outi = out.map_values(|j: usize| j as int);
    let range = vstd::set_lib::set_int_range(0, n);
    assert(outi.no_duplicates()) by {
        assert forall|a: int, b: int| 0 <= a < outi.len() && 0 <= b < outi.len() && a != b implies outi[a] != outi[b] by {
            if a < b {
                assert(out[a] != out[b]);
            } else {
                assert(out[b] != out[a]);
            }
        }
    }
    outi.unique_seq_to_set();
    assert(outi.to_set().subset_of(range)) by {
        assert forall|x: int| outi.to_set().contains(x) implies range.contains(x) by {
            let k = choose|k: int| 0 <= k < outi.len() && outi[k] == x;
        }
    }
    vstd::set_lib::lemma_int_range(0, n);
    vstd::set_lib::lemma_subset_equality(outi.to_set(), range);
    assert forall|j: usize| (j as int) < n implies #[trigger] out.contains(j) by {
        assert(range.contains(j as int));
        assert(outi.to_set().contains(j as int));
        let k = choose|k: int| 0 <= k < outi.len() && outi[k] == j as int;
        assert(out[k] == j);
    }
}

/// Fewer positions than `n` cannot hold every position below `n`.
proof fn lemma_all_taken_full(out: Seq<usize>, n: int)
    requires
        out.len() < n <= usize::MAX,
    ensures
        exists|j: usize| (j as int) < n && !#[trigger] out.contains(j),
{
    broadcast use vstd::seq_lib::seq_to_set_is_finite;
    let outi = out.map_values(|j: usize| j as int);
    let range = vstd::set_lib::set_int_range(0, n);
    if forall|j: usize| (j as int) < n ==> #[trigger] out.contains(j) {
        assert(range.subset_of(outi.to_set())) by {
            assert forall|x: int| range.contains(x) implies outi.to_set().contains(x) by {
                assert(out.contains(x as usize));
                let k = choose|k: int| 0 <= k < out.len() && out[k] == x as usize;
                assert(outi[k] == x);
            }
        }
        vstd::set_lib::lemma_int_range(0, n);
        vstd::set_lib::lemma_len_subset(range, outi.to_set());
        outi.lemma_cardinality_of_set();
        assert(false);
    }
}

/// A ranking cut at a limit no smaller than the number of positions holds
/// every position.
pub proof fn lemma_ranked_full(counts: Seq<i128>, limit: int, r: Seq<usize>)
    requires
        ranked_top(counts, limit, r),
        counts.len() <= limit,
        counts.len() <= usize::MAX,
    ensures
        r.len() == counts.len(),
{
    let n = counts.len() as int;
    if r.len() < n {
        lemma_all_taken_full(r, n);
        let j = choose|j: usize| (j as int) < n && !#[trigger] r.contains(j);
        assert(r.contains(j));
    }
    if r.len() > n {
        let p = r.subrange(0, n);
        assert forall|a: int, b: int| 0 <= a < b < p.len() implies p[a] != p[b] by {
            assert(ranks_before(counts, r[a] as int, r[b] as int));
        }
        lemma_distinct_covers(p, n);
        assert(r[n] < n);
        assert(p.contains(r[n]));
        let k = choose|k: int| 0 <= k < p.len() && p[k] == r[n];
        assert(ranks_before(counts, r[k] as int, r[n] as int));
    }
}

} // verus!
