//! Stable ordering of table rows by a key: by name in code-point order, or by
//! position. Rows with equal keys keep their table order.
use vstd::prelude::*;

use crate::text::{lemma_name_lt_asymmetric, lemma_name_lt_transitive, name_lt, str_lt};

verus! {

/// A row that can be listed in name order.
pub trait Named: Sized {
    /// The name the row is ordered by.
    spec fn sort_name(&self) -> Seq<char>;

    /// The name the row is ordered by.
    fn name_str(&self) -> (r: &str)
        ensures
            r@ == self.sort_name(),
    ;

    /// An equal copy of the row.
    fn duplicate(&self) -> (r: Self)
        ensures
            r == *self,
    ;
}

/// The names of a sequence of rows.
pub open spec fn names_of<T: Named>(rows: Seq<T>) -> Seq<Seq<char>> {
    rows.map_values(|t: T| t.sort_name())
}

/// Where, in the already ordered indices `order`, a row named `key` goes
/// after every row it does not precede.
pub open spec fn name_insert_point(order: Seq<int>, names: Seq<Seq<char>>, key: Seq<char>) -> int
    decreases order.len(),
{
    if order.len() == 0 {
        0
    } else if name_lt(key, names[order[0]]) {
        0
    } else {
        1 + name_insert_point(order.drop_first(), names, key)
    }
}

/// The indices `0..n` of `names`, ordered by name, equal names in index order.
pub open spec fn name_order(names: Seq<Seq<char>>, n: nat) -> Seq<int>
    decreases n,
{
    if n == 0 {
        seq![]
    } else {
        let o = name_order(names, (n - 1) as nat);
        o.insert(name_insert_point(o, names, names[n - 1]), n - 1)
    }
}

/// The rows ordered by name, equal names in table order.
pub open spec fn sorted_by_name<T: Named>(rows: Seq<T>) -> Seq<T> {
    name_order(names_of(rows), rows.len()).map_values(|i: int| rows[i])
}

/// Where, in the already ordered indices `order`, a row at `key` goes after
/// every row it does not precede.
pub open spec fn position_insert_point(order: Seq<int>, keys: Seq<i64>, key: i64) -> int
    decreases order.len(),
{
    if order.len() == 0 {
        0
    } else if key < keys[order[0]] {
        0
    } else {
        1 + position_insert_point(order.drop_first(), keys, key)
    }
}

/// The indices `0..n` of `keys`, ordered by key, equal keys in index order.
pub open spec fn position_order(keys: Seq<i64>, n: nat) -> Seq<int>
    decreases n,
{
    if n == 0 {
        seq![]
    } else {
        let o = position_order(keys, (n - 1) as nat);
        o.insert(position_insert_point(o, keys, keys[n - 1]), n - 1)
    }
}

proof fn lemma_name_insert_point_bounds(order: Seq<int>, names: Seq<Seq<char>>, key: Seq<char>)
    ensures
        0 <= name_insert_point(order, names, key) <= order.len(),
    decreases order.len(),
{
    if order.len() > 0 {
        lemma_name_insert_point_bounds(order.drop_first(), names, key);
    }
}

proof fn lemma_position_insert_point_bounds(order: Seq<int>, keys: Seq<i64>, key: i64)
    ensures
        0 <= position_insert_point(order, keys, key) <= order.len(),
    decreases order.len(),
{
    if order.len() > 0 {
        lemma_position_insert_point_bounds(order.drop_first(), keys, key);
    }
}

/// The ordered indices of `0..n` are exactly `0..n`, each once.
pub proof fn lemma_name_order_is_permutation(names: Seq<Seq<char>>, n: nat)
    ensures
        name_order(names, n).len() == n,
        forall|j: int| 0 <= j < n ==> 0 <= #[trigger] name_order(names, n)[j] < n,
        forall|j: int, k: int|
            0 <= j < k < n ==> name_order(names, n)[j] != name_order(names, n)[k],
    decreases n,
{
    if n > 0 {
        let o = name_order(names, (n - 1) as nat);
        lemma_name_order_is_permutation(names, (n - 1) as nat);
        lemma_name_insert_point_bounds(o, names, names[n - 1]);
    }
}

/// The ordered indices of `0..n` are exactly `0..n`, each once.
pub proof fn lemma_position_order_is_permutation(keys: Seq<i64>, n: nat)
    ensures
        position_order(keys, n).len() == n,
        forall|j: int| 0 <= j < n ==> 0 <= #[trigger] position_order(keys, n)[j] < n,
        forall|j: int, k: int|
            0 <= j < k < n ==> position_order(keys, n)[j] != position_order(keys, n)[k],
    decreases n,
{
    if n > 0 {
        let o = position_order(keys, (n - 1) as nat);
        lemma_position_order_is_permutation(keys, (n - 1) as nat);
        lemma_position_insert_point_bounds(o, keys, keys[n - 1]);
    }
}

/// The indices of `rows` in name order.
pub fn name_order_of<T: Named>(rows: &Vec<T>) -> (r: Vec<usize>)
    ensures
        r@.map_values(|i: usize| i as int) == name_order(names_of(rows@), rows@.len()),
{
    let ghost names = names_of(rows@);
    let mut order: Vec<usize> = Vec::new();
    let mut k: usize = 0;
    while k < rows.len()
        invariant
            k <= rows@.len(),
            names == names_of(rows@),
            order@.map_values(|i: usize| i as int) == name_order(names, k as nat),
            forall|j: int| 0 <= j < order@.len() ==> order@[j] < k,
        decreases rows@.len() - k,
    {
        let ghost o = order@.map_values(|i: usize| i as int);
        let key = rows[k].name_str();
        let mut p: usize = 0;
        assert(o.skip(0) =~= o);
        while p < order.len() && !str_lt(key, rows[order[p]].name_str())
            invariant
                k < rows@.len(),
                names == names_of(rows@),
                key@ == names[k as int],
                o == order@.map_values(|i: usize| i as int),
                forall|j: int| 0 <= j < order@.len() ==> order@[j] < k,
                p <= order@.len(),
                name_insert_point(o, names, key@) == p + name_insert_point(
                    o.skip(p as int),
                    names,
                    key@,
                ),
            decreases order@.len() - p,
        {
            proof {
                let rest = o.skip(p as int);
                assert(rest[0] == order@[p as int] as int);
                assert(names[rest[0]] == rows@[rest[0]].sort_name());
                assert(rest.drop_first() =~= o.skip(p + 1));
            }
            p = p + 1;
        }
        proof {
            let rest = o.skip(p as int);
            if p < order@.len() {
                assert(rest[0] == order@[p as int] as int);
                assert(names[rest[0]] == rows@[rest[0]].sort_name());
            } else {
                assert(rest.len() == 0);
            }
            assert(name_insert_point(o, names, key@) == p);
            assert(o =~= name_order(names, k as nat));
        }
        order.insert(p, k);
        proof {
            assert(order@.map_values(|i: usize| i as int) =~= o.insert(p as int, k as int));
            assert(names[k as int] == key@);
        }
        k = k + 1;
    }
    order
}

/// The indices of `keys` in key order.
pub fn position_order_of(keys: &Vec<i64>) -> (r: Vec<usize>)
    ensures
        r@.map_values(|i: usize| i as int) == position_order(keys@, keys@.len()),
{
    let mut order: Vec<usize> = Vec::new();
    let mut k: usize = 0;
    while k < keys.len()
        invariant
            k <= keys@.len(),
            order@.map_values(|i: usize| i as int) == position_order(keys@, k as nat),
            forall|j: int| 0 <= j < order@.len() ==> order@[j] < k,
        decreases keys@.len() - k,
    {
        let ghost o = order@.map_values(|i: usize| i as int);
        let key = keys[k];
        let mut p: usize = 0;
        assert(o.skip(0) =~= o);
        while p < order.len() && !(key < keys[order[p]])
            invariant
                k < keys@.len(),
                key == keys@[k as int],
                o == order@.map_values(|i: usize| i as int),
                forall|j: int| 0 <= j < order@.len() ==> order@[j] < k,
                p <= order@.len(),
                position_insert_point(o, keys@, key) == p + position_insert_point(
                    o.skip(p as int),
                    keys@,
                    key,
                ),
            decreases order@.len() - p,
        {
            proof {
                let rest = o.skip(p as int);
                assert(rest[0] == order@[p as int] as int);
                assert(rest.drop_first() =~= o.skip(p + 1));
            }
            p = p + 1;
        }
        proof {
            let rest = o.skip(p as int);
            if p < order@.len() {
                assert(rest[0] == order@[p as int] as int);
            } else {
                assert(rest.len() == 0);
            }
            assert(position_insert_point(o, keys@, key) == p);
            assert(o =~= position_order(keys@, k as nat));
        }
        order.insert(p, k);
        proof {
            assert(order@.map_values(|i: usize| i as int) =~= o.insert(p as int, k as int));
        }
        k = k + 1;
    }
    order
}

/// The rows of `rows` in name order, equal names in table order.
pub fn sort_by_name<T: Named>(rows: &Vec<T>) -> (r: Vec<T>)
    ensures
        r@ == sorted_by_name(rows@),
{
    let order = name_order_of(rows);
    let ghost o = name_order(names_of(rows@), rows@.len());
    proof {
        lemma_name_order_is_permutation(names_of(rows@), rows@.len());
    }
    let mut out: Vec<T> = Vec::new();
    let mut j: usize = 0;
    while j < order.len()
        invariant
            o == order@.map_values(|i: usize| i as int),
            o.len() == rows@.len(),
            forall|x: int| 0 <= x < o.len() ==> 0 <= #[trigger] o[x] < rows@.len(),
            j <= order@.len(),
            out@ =~= o.take(j as int).map_values(|i: int| rows@[i]),
        decreases order@.len() - j,
    {
        assert(o[j as int] == order@[j as int] as int);
        out.push(rows[order[j]].duplicate());
        j = j + 1;
    }
    assert(o.take(o.len() as int) =~= o);
    out
}

/// The indices `o` list names in non-decreasing order.
pub open spec fn names_sorted(names: Seq<Seq<char>>, o: Seq<int>) -> bool {
    forall|p: int, q: int| 0 <= p < q < o.len() ==> !name_lt(names[o[q]], names[o[p]])
}

/// The indices `o` list keys in non-decreasing order.
pub open spec fn positions_sorted(keys: Seq<i64>, o: Seq<int>) -> bool {
    forall|p: int, q: int| 0 <= p < q < o.len() ==> keys[o[p]] <= keys[o[q]]
}

proof fn lemma_name_insert_point_props(order: Seq<int>, names: Seq<Seq<char>>, key: Seq<char>)
    ensures
        forall|j: int|
            0 <= j < name_insert_point(order, names, key) ==> !name_lt(key, names[order[j]]),
        name_insert_point(order, names, key) < order.len() ==> name_lt(
            key,
            names[order[name_insert_point(order, names, key)]],
        ),
    decreases order.len(),
{
    lemma_name_insert_point_bounds(order, names, key);
    if order.len() > 0 && !name_lt(key, names[order[0]]) {
        lemma_name_insert_point_props(order.drop_first(), names, key);
        let ip = name_insert_point(order, names, key);
        lemma_name_insert_point_bounds(order.drop_first(), names, key);
        assert(ip == 1 + name_insert_point(order.drop_first(), names, key));
        assert forall|j: int| 0 <= j < ip implies !name_lt(key, names[order[j]]) by {
            if j > 0 {
                assert(order[j] == order.drop_first()[j - 1]);
            }
        }
        if ip < order.len() {
            assert(order[ip] == order.drop_first()[ip - 1]);
        }
    }
}

proof fn lemma_position_insert_point_props(order: Seq<int>, keys: Seq<i64>, key: i64)
    ensures
        forall|j: int|
            0 <= j < position_insert_point(order, keys, key) ==> !(key < keys[order[j]]),
        position_insert_point(order, keys, key) < order.len() ==> key < keys[order[position_insert_point(
            order,
            keys,
            key,
        )]],
    decreases order.len(),
{
    lemma_position_insert_point_bounds(order, keys, key);
    if order.len() > 0 && !(key < keys[order[0]]) {
        lemma_position_insert_point_props(order.drop_first(), keys, key);
        let ip = position_insert_point(order, keys, key);
        lemma_position_insert_point_bounds(order.drop_first(), keys, key);
        assert(ip == 1 + position_insert_point(order.drop_first(), keys, key));
        assert forall|j: int| 0 <= j < ip implies !(key < keys[order[j]]) by {
            if j > 0 {
                assert(order[j] == order.drop_first()[j - 1]);
            }
        }
        if ip < order.len() {
            assert(order[ip] == order.drop_first()[ip - 1]);
        }
    }
}

/// Ordering by name lists names in non-decreasing order.
pub proof fn lemma_name_order_sorted(names: Seq<Seq<char>>, n: nat)
    requires
        n <= names.len(),
    ensures
        names_sorted(names, name_order(names, n)),
    decreases n,
{
    if n > 0 {
        let o = name_order(names, (n - 1) as nat);
        lemma_name_order_sorted(names, (n - 1) as nat);
        lemma_name_order_is_permutation(names, (n - 1) as nat);
        let key = names[n - 1];
        let ip = name_insert_point(o, names, key);
        lemma_name_insert_point_bounds(o, names, key);
        lemma_name_insert_point_props(o, names, key);
        let o2 = o.insert(ip, n - 1);
        assert(o2 == name_order(names, n));
        assert forall|p: int, q: int| 0 <= p < q < o2.len() implies !name_lt(
            names[o2[q]],
            names[o2[p]],
        ) by {
            if q < ip {
                assert(o2[p] == o[p] && o2[q] == o[q]);
            } else if q == ip {
                assert(o2[p] == o[p] && o2[q] == n - 1);
            } else if p < ip {
                assert(o2[p] == o[p] && o2[q] == o[q - 1]);
            } else if p == ip {
                assert(o2[p] == n - 1 && o2[q] == o[q - 1]);
                if q - 1 == ip {
                    lemma_name_lt_asymmetric(key, names[o[ip]]);
                } else if name_lt(names[o[q - 1]], key) {
                    lemma_name_lt_transitive(names[o[q - 1]], key, names[o[ip]]);
                }
            } else {
                assert(o2[p] == o[p - 1] && o2[q] == o[q - 1]);
            }
        }
    }
}

/// Ordering by position lists positions in non-decreasing order.
pub proof fn lemma_position_order_sorted(keys: Seq<i64>, n: nat)
    requires
        n <= keys.len(),
    ensures
        positions_sorted(keys, position_order(keys, n)),
    decreases n,
{
    if n > 0 {
        let o = position_order(keys, (n - 1) as nat);
        lemma_position_order_sorted(keys, (n - 1) as nat);
        lemma_position_order_is_permutation(keys, (n - 1) as nat);
        let key = keys[n - 1];
        let ip = position_insert_point(o, keys, key);
        lemma_position_insert_point_bounds(o, keys, key);
        lemma_position_insert_point_props(o, keys, key);
        let o2 = o.insert(ip, n - 1);
        assert(o2 == position_order(keys, n));
        assert forall|p: int, q: int| 0 <= p < q < o2.len() implies keys[o2[p]] <= keys[o2[q]] by {
            if q < ip {
                assert(o2[p] == o[p] && o2[q] == o[q]);
            } else if q == ip {
                assert(o2[p] == o[p] && o2[q] == n - 1);
            } else if p < ip {
                assert(o2[p] == o[p] && o2[q] == o[q - 1]);
            } else if p == ip {
                assert(o2[p] == n - 1 && o2[q] == o[q - 1]);
            } else {
                assert(o2[p] == o[p - 1] && o2[q] == o[q - 1]);
            }
        }
    }
}

/// Keys already in non-decreasing order keep their order.
pub proof fn lemma_position_order_of_sorted(keys: Seq<i64>, n: nat)
    requires
        n <= keys.len(),
        forall|i: int, j: int| 0 <= i < j < n ==> keys[i] <= keys[j],
    ensures
        position_order(keys, n) == Seq::new(n, |i: int| i),
    decreases n,
{
    if n > 0 {
        lemma_position_order_of_sorted(keys, (n - 1) as nat);
        let o = position_order(keys, (n - 1) as nat);
        lemma_position_insert_point_bounds(o, keys, keys[n - 1]);
        lemma_position_insert_point_props(o, keys, keys[n - 1]);
        let ip = position_insert_point(o, keys, keys[n - 1]);
        if ip < o.len() {
            assert(o[ip] == ip);
        }
        assert(o.insert(ip, n - 1) =~= Seq::new(n, |i: int| i));
    }
}

/// Listing rows by name gives each row of the table once, names in
/// non-decreasing code-point order.
pub proof fn law_listed_in_name_order<T: Named>(rows: Seq<T>)
    ensures
        sorted_by_name(rows).len() == rows.len(),
        forall|p: int, q: int|
            0 <= p < q < rows.len() ==> !name_lt(
                #[trigger] sorted_by_name(rows)[q].sort_name(),
                #[trigger] sorted_by_name(rows)[p].sort_name(),
            ),
        exists|o: Seq<int>|
            o.len() == rows.len() && (forall|p: int| 0 <= p < o.len() ==> 0 <= #[trigger] o[p]
                < rows.len()) && (forall|p: int, q: int| 0 <= p < q < o.len() ==> o[p] != o[q])
                && (forall|p: int| 0 <= p < o.len() ==> #[trigger] sorted_by_name(rows)[p] == rows[o[p]]),
{
    let names = names_of(rows);
    let o = name_order(names, rows.len());
    lemma_name_order_is_permutation(names, rows.len());
    lemma_name_order_sorted(names, rows.len());
    assert forall|p: int, q: int| 0 <= p < q < rows.len() implies !name_lt(
        #[trigger] sorted_by_name(rows)[q].sort_name(),
        #[trigger] sorted_by_name(rows)[p].sort_name(),
    ) by {
        assert(sorted_by_name(rows)[q] == rows[o[q]]);
        assert(sorted_by_name(rows)[p] == rows[o[p]]);
        assert(names[o[q]] == rows[o[q]].sort_name());
        assert(names[o[p]] == rows[o[p]].sort_name());
    }
    assert(forall|p: int| 0 <= p < o.len() ==> #[trigger] sorted_by_name(rows)[p] == rows[o[p]]);
}

} // verus!
