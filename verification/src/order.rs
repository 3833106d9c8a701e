//! Stable ordering of rows by a pair of keys.
use vstd::prelude::*;

verus! {

/// Whether key `a` comes before key `b`: by the first part, then by the second.
pub open spec fn before(a: (u128, u64), b: (u128, u64)) -> bool {
    a.0 < b.0 || (a.0 == b.0 && a.1 < b.1)
}

fn comes_before(a: (u128, u64), b: (u128, u64)) -> (r: bool)
    ensures
        r == before(a, b),
{
    a.0 < b.0 || (a.0 == b.0 && a.1 < b.1)
}

/// Whether `p` lists every row once, by key, rows of equal keys in their own order.
pub open spec fn is_order(p: Seq<int>, keys: Seq<(u128, u64)>) -> bool {
    &&& p.len() == keys.len()
    &&& forall|i: int| 0 <= i < p.len() ==> 0 <= #[trigger] p[i] < keys.len()
    &&& forall|i: int, j: int|
        #![trigger p[i], p[j]]
        0 <= i < j < p.len() ==> before(keys[p[i]], keys[p[j]]) || (keys[p[i]] == keys[p[j]] && p[i]
            < p[j])
}

/// The order of the rows: by key, rows of equal keys in their own order.
pub open spec fn order_of(keys: Seq<(u128, u64)>) -> Seq<int> {
    choose|p: Seq<int>| is_order(p, keys)
}

/// Whether row `a` stands before row `b` in the order.
pub open spec fn precedes(keys: Seq<(u128, u64)>, a: int, b: int) -> bool {
    before(keys[a], keys[b]) || (keys[a] == keys[b] && a < b)
}

/// Where a key goes among the first `at` rows of an order.
spec fn place_of(q: Seq<int>, keys: Seq<(u128, u64)>, key: (u128, u64), at: int) -> int
    decreases at,
{
    if at > 0 && before(key, keys[q[at - 1]]) {
        place_of(q, keys, key, at - 1)
    } else {
        at
    }
}

proof fn lemma_place(q: Seq<int>, keys: Seq<(u128, u64)>, key: (u128, u64), at: int)
    requires
        0 <= at <= q.len(),
        forall|k: int| at <= k < q.len() ==> before(key, keys[#[trigger] q[k]]),
    ensures
        0 <= place_of(q, keys, key, at) <= at,
        forall|k: int|
            place_of(q, keys, key, at) <= k < q.len() ==> before(key, keys[#[trigger] q[k]]),
        place_of(q, keys, key, at) > 0 ==> !before(
            key,
            keys[q[place_of(q, keys, key, at) - 1]],
        ),
    decreases at,
{
    if at > 0 && before(key, keys[q[at - 1]]) {
        lemma_place(q, keys, key, at - 1);
    }
}

proof fn lemma_insert(q: Seq<int>, keys: Seq<(u128, u64)>) -> (p: Seq<int>)
    requires
        keys.len() > 0,
        is_order(q, keys.drop_last()),
    ensures
        is_order(p, keys),
{
    let n = keys.len() - 1;
    let seen = keys.drop_last();
    let key = keys.last();
    lemma_place(q, seen, key, q.len() as int);
    let at = place_of(q, seen, key, q.len() as int);
    let p = q.insert(at, n);
    assert forall|a: int, b: int|
        #![trigger p[a], p[b]]
        0 <= a < b < p.len() implies before(keys[p[a]], keys[p[b]]) || (keys[p[a]] == keys[p[b]]
        && p[a] < p[b]) by {
        let x = if a < at { a } else { a - 1 };
        let y = if b < at { b } else { b - 1 };
        if a != at { assert(p[a] == q[x]); }
        if b != at { assert(p[b] == q[y]); }
        if a != at && b != at {
            assert(precedes(seen, q[x], q[y]));
        } else if b == at && at > 0 {
            if a < at - 1 {
                assert(precedes(seen, q[a], q[at - 1]));
            }
        }
    }
    assert forall|i: int| 0 <= i < p.len() implies 0 <= #[trigger] p[i] < keys.len() by {
        if i < at {
            assert(p[i] == q[i]);
        } else if i > at {
            assert(p[i] == q[i - 1]);
        }
    }
    p
}

proof fn lemma_some_order(keys: Seq<(u128, u64)>) -> (p: Seq<int>)
    ensures
        is_order(p, keys),
    decreases keys.len(),
{
    if keys.len() == 0 {
        Seq::empty()
    } else {
        let q = lemma_some_order(keys.drop_last());
        lemma_insert(q, keys)
    }
}

/// Whatever the keys, there is an order.
pub proof fn order_exists(keys: Seq<(u128, u64)>)
    ensures
        is_order(order_of(keys), keys),
{
    let p = lemma_some_order(keys);
    assert(is_order(p, keys));
}

/// The order lists every row, and none twice.
pub proof fn order_lists_every_row(keys: Seq<(u128, u64)>)
    ensures
        order_of(keys).len() == keys.len(),
        order_of(keys).no_duplicates(),
        forall|row: int| 0 <= row < keys.len() ==> order_of(keys).contains(row),
{
    order_exists(keys);
    let p = order_of(keys);
    assert forall|i: int, j: int| 0 <= i < p.len() && 0 <= j < p.len() && i != j implies p[i]
        != p[j] by {
        if i < j {
            assert(precedes(keys, p[i], p[j]));
        } else {
            assert(precedes(keys, p[j], p[i]));
        }
    }
    assert forall|row: int| 0 <= row < keys.len() implies p.contains(row) by {
        lemma_order_is_onto(p, keys, row);
    }
}

/// An order lists every row.
proof fn lemma_order_is_onto(p: Seq<int>, keys: Seq<(u128, u64)>, row: int)
    requires
        is_order(p, keys),
        0 <= row < keys.len(),
    ensures
        p.contains(row),
{
    assert forall|i: int, j: int| 0 <= i < p.len() && 0 <= j < p.len() && i != j implies p[i]
        != p[j] by {
        if i < j {
            assert(precedes(keys, p[i], p[j]));
        } else {
            assert(precedes(keys, p[j], p[i]));
        }
    }
    assert(p.no_duplicates());
    p.unique_seq_to_set();
    let n = keys.len() as int;
    let rows = vstd::set_lib::set_int_range(0, n);
    vstd::set_lib::lemma_int_range(0, n);
    assert forall|x: int| p.to_set().contains(x) implies rows.contains(x) by {
        let k = choose|k: int| 0 <= k < p.len() && p[k] == x;
        assert(0 <= p[k] < keys.len());
    }
    assert(p.to_set().subset_of(rows));
    vstd::set_lib::lemma_subset_equality(p.to_set(), rows);
    assert(rows.contains(row));
    assert(p.to_set().contains(row));
}

/// There is one order only.
pub proof fn order_is_unique(p: Seq<int>, q: Seq<int>, keys: Seq<(u128, u64)>)
    requires
        is_order(p, keys),
        is_order(q, keys),
    ensures
        p == q,
{
    assert forall|k: int| 0 <= k < p.len() implies p[k] == q[k] by {
        lemma_same_at(p, q, keys, k);
    }
    assert(p =~= q);
}

proof fn lemma_same_at(p: Seq<int>, q: Seq<int>, keys: Seq<(u128, u64)>, k: int)
    requires
        is_order(p, keys),
        is_order(q, keys),
        0 <= k < p.len(),
    ensures
        p[k] == q[k],
    decreases k,
{
    assert forall|j: int| 0 <= j < k implies p[j] == q[j] by {
        lemma_same_at(p, q, keys, j);
    }
    lemma_order_is_onto(q, keys, p[k]);
    lemma_order_is_onto(p, keys, q[k]);
    let m = choose|m: int| 0 <= m < q.len() && q[m] == p[k];
    let l = choose|l: int| 0 <= l < p.len() && p[l] == q[k];
    if m < k {
        assert(p[m] == p[k]);
        assert(precedes(keys, p[m], p[k]));
    } else if l < k {
        assert(q[l] == q[k]);
        assert(precedes(keys, q[l], q[k]));
    } else if m > k && l > k {
        assert(precedes(keys, q[k], q[m]));
        assert(precedes(keys, p[k], p[l]));
    }
}

/// Positions as mathematical integers.
pub open spec fn positions(p: Seq<usize>) -> Seq<int> {
    p.map_values(|i: usize| i as int)
}

/// The order of the rows by key, rows of equal keys in their own order.
pub fn stable_order(keys: &Vec<(u128, u64)>) -> (r: Vec<usize>)
    ensures
        is_order(positions(r@), keys@),
        positions(r@) == order_of(keys@),
{
    let mut r: Vec<usize> = Vec::new();
    let mut i: usize = 0;
    while i < keys.len()
        invariant
            0 <= i <= keys@.len(),
            is_order(positions(r@), keys@.take(i as int)),
        decreases keys@.len() - i,
    {
        let key = keys[i];
        let mut at: usize = r.len();
        let ghost seen = keys@.take(i as int);
        assert forall|k: int| 0 <= k < r@.len() implies #[trigger] r@[k] < i by {
            assert(positions(r@)[k] == r@[k]);
        }
        while at > 0 && comes_before(key, keys[r[at - 1]])
            invariant
                0 <= at <= r@.len(),
                i < keys@.len(),
                seen == keys@.take(i as int),
                is_order(positions(r@), seen),
                key == keys@[i as int],
                forall|k: int| 0 <= k < r@.len() ==> #[trigger] r@[k] < i,
                forall|k: int| at <= k < r@.len() ==> before(key, keys@[#[trigger] r@[k] as int]),
            decreases at,
        {
            at -= 1;
        }
        let ghost old_p = positions(r@);
        r.insert(at, i);
        proof {
            let p = positions(r@);
            let next = keys@.take(i + 1);
            assert forall|a: int, b: int|
                #![trigger p[a], p[b]]
                0 <= a < b < p.len() implies before(next[p[a]], next[p[b]]) || (next[p[a]]
                == next[p[b]] && p[a] < p[b]) by {
                let x = if a < at { a } else { a - 1 };
                let y = if b < at { b } else { b - 1 };
                if a != at { assert(p[a] == old_p[x]); }
                if b != at { assert(p[b] == old_p[y]); }
                if a != at && b != at {
                    assert(before(seen[old_p[x]], seen[old_p[y]]) || (seen[old_p[x]]
                        == seen[old_p[y]] && old_p[x] < old_p[y]));
                } else if b == at && at > 0 {
                    assert(!before(key, keys@[old_p[at - 1]]));
                    if a < at - 1 {
                        assert(before(seen[old_p[a]], seen[old_p[at - 1]]) || (seen[old_p[a]]
                            == seen[old_p[at - 1]] && old_p[a] < old_p[at - 1]));
                    }
                }
            }
        }
        i += 1;
    }
    assert(keys@.take(i as int) == keys@);
    proof {
        order_is_unique(positions(r@), order_of(keys@), keys@);
    }
    r
}

} // verus!
