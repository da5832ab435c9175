//! Stable sorting by a key: the order that a stable sort (such as std's
//! `sort_by`) gives, stated as a property of the resulting arrangement and
//! computed by insertion.

use vstd::prelude::*;
use crate::text::{text_less, text_lt, lemma_text_lt_irreflexive, lemma_text_lt_transitive, lemma_text_lt_total};

verus! {

/// The value by which a record is ordered: a number, or a text compared as
/// Rust compares strings.
pub enum SortKey {
    Number(i128),
    Text(String),
}

/// Strict order of keys. Numbers compare as integers and texts
/// lexicographically; keys of one sort always share a kind, and a number is
/// placed below a text only to make the order total.
pub open spec fn key_lt(a: SortKey, b: SortKey) -> bool {
    match (a, b) {
        (SortKey::Number(x), SortKey::Number(y)) => x < y,
        (SortKey::Text(x), SortKey::Text(y)) => text_lt(x@, y@),
        (SortKey::Number(_), SortKey::Text(_)) => true,
        (SortKey::Text(_), SortKey::Number(_)) => false,
    }
}

/// Which way a sort goes. Both directions are stable: records with equal
/// keys keep their relative order.
#[derive(PartialEq, Eq, Structural, Clone, Copy, Debug)]
pub enum Direction {
    Ascending,
    Descending,
}

/// In a stable sort of `keys` in direction `dir`, the record at index `i`
/// comes before the record at index `j`.
pub open spec fn goes_before(keys: Seq<SortKey>, dir: Direction, i: int, j: int) -> bool {
    match dir {
        Direction::Ascending => key_lt(keys[i], keys[j]) || (!key_lt(keys[j], keys[i]) && i < j),
        Direction::Descending => key_lt(keys[j], keys[i]) || (!key_lt(keys[i], keys[j]) && i < j),
    }
}

/// `p` lists every index below `n` exactly once.
pub open spec fn is_permutation(p: Seq<usize>, n: nat) -> bool {
    &&& p.len() == n
    &&& forall|k: int| 0 <= k < n ==> #[trigger] p[k] < n
    &&& forall|k1: int, k2: int| 0 <= k1 < k2 < n ==> #[trigger] p[k1] != #[trigger] p[k2]
    &&& forall|x: usize| x < n ==> #[trigger] p.contains(x)
}

/// `p` is the arrangement of indices that a stable sort of `keys` in
/// direction `dir` produces.
pub open spec fn is_stable_order(keys: Seq<SortKey>, dir: Direction, p: Seq<usize>) -> bool {
    &&& is_permutation(p, keys.len())
    &&& forall|a: int, b: int|
        0 <= a < b < p.len() ==> goes_before(keys, dir, #[trigger] p[a] as int, #[trigger] p[b] as int)
}

/// The arrangement of indices that a stable sort of `keys` produces (there
/// is exactly one: see `lemma_stable_order_unique`).
pub open spec fn stable_order_spec(keys: Seq<SortKey>, dir: Direction) -> Seq<usize> {
    choose|p: Seq<usize>| is_stable_order(keys, dir, p)
}

/// The items taken in the order of the indices `p`.
pub open spec fn arrange<T>(items: Seq<T>, p: Seq<usize>) -> Seq<T> {
    Seq::new(p.len(), |k: int| items[p[k] as int])
}

/// The items as a stable sort by `keys` (one key per item) arranges them.
pub open spec fn stable_sorted<T>(items: Seq<T>, keys: Seq<SortKey>, dir: Direction) -> Seq<T> {
    arrange(items, stable_order_spec(keys, dir))
}

proof fn lemma_key_lt_irreflexive(a: SortKey)
    ensures
        !key_lt(a, a),
{
    if let SortKey::Text(x) = a {
        lemma_text_lt_irreflexive(x@);
    }
}

proof fn lemma_key_lt_transitive(a: SortKey, b: SortKey, c: SortKey)
    requires
        key_lt(a, b),
        key_lt(b, c),
    ensures
        key_lt(a, c),
{
    match (a, b, c) {
        (SortKey::Text(x), SortKey::Text(y), SortKey::Text(z)) => {
            lemma_text_lt_transitive(x@, y@, z@);
        },
        _ => {},
    }
}

/// Keys that are not below one another order every third key alike.
proof fn lemma_key_lt_equivalent(a: SortKey, b: SortKey, c: SortKey)
    requires
        !key_lt(a, b),
        !key_lt(b, a),
    ensures
        key_lt(a, c) == key_lt(b, c),
        key_lt(c, a) == key_lt(c, b),
{
    match (a, b) {
        (SortKey::Text(x), SortKey::Text(y)) => {
            lemma_text_lt_total(x@, y@);
        },
        _ => {},
    }
}

/// `goes_before` is a strict total order on the indices of `keys`.
pub proof fn lemma_goes_before_order(keys: Seq<SortKey>, dir: Direction, i: int, j: int, k: int)
    ensures
        !goes_before(keys, dir, i, i),
        i != j ==> (goes_before(keys, dir, i, j) || goes_before(keys, dir, j, i)),
        goes_before(keys, dir, i, j) ==> !goes_before(keys, dir, j, i),
        goes_before(keys, dir, i, j) && goes_before(keys, dir, j, k) ==> goes_before(
            keys,
            dir,
            i,
            k,
        ),
{
    let (a, b, c) = (keys[i], keys[j], keys[k]);
    lemma_key_lt_irreflexive(a);
    lemma_key_lt_irreflexive(b);
    if key_lt(a, b) && key_lt(b, a) {
        lemma_key_lt_transitive(a, b, a);
    }
    if key_lt(a, b) && key_lt(b, c) {
        lemma_key_lt_transitive(a, b, c);
    }
    if key_lt(c, b) && key_lt(b, a) {
        lemma_key_lt_transitive(c, b, a);
    }
    if !key_lt(a, b) && !key_lt(b, a) {
        lemma_key_lt_equivalent(a, b, c);
    }
    if !key_lt(b, c) && !key_lt(c, b) {
        lemma_key_lt_equivalent(b, c, a);
    }
}

/// A stable sort has one result only: two arrangements that both list
/// every index once, in the stable order, are the same.
pub proof fn lemma_stable_order_unique(
    keys: Seq<SortKey>,
    dir: Direction,
    p: Seq<usize>,
    q: Seq<usize>,
)
    requires
        is_stable_order(keys, dir, p),
        is_stable_order(keys, dir, q),
    ensures
        p == q,
{
    let n = p.len();
    assert forall|k: int| 0 <= k < n implies p[k] == q[k] by {
        lemma_stable_order_prefix(keys, dir, p, q, k);
    }
    assert(p =~= q);
}

proof fn lemma_stable_order_prefix(
    keys: Seq<SortKey>,
    dir: Direction,
    p: Seq<usize>,
    q: Seq<usize>,
    k: int,
)
    requires
        is_stable_order(keys, dir, p),
        is_stable_order(keys, dir, q),
        0 <= k < p.len(),
    ensures
        forall|m: int| 0 <= m <= k ==> p[m] == q[m],
    decreases k,
{
    if k > 0 {
        lemma_stable_order_prefix(keys, dir, p, q, k - 1);
    }
    let n = p.len();
    if p[k] != q[k] {
        let x = p[k];
        let y = q[k];
        let mq = lemma_index_of(q, n, x);
        let mp = lemma_index_of(p, n, y);
        // x does not stand in q before k, where q agrees with p
        if mq < k {
            assert(p[mq] == q[mq]);
        }
        if mp < k {
            assert(q[mp] == p[mp]);
        }
        assert(mq > k);
        assert(mp > k);
        assert(goes_before(keys, dir, y as int, x as int));
        assert(goes_before(keys, dir, x as int, y as int));
        lemma_goes_before_order(keys, dir, x as int, y as int, x as int);
    }
}

/// Every index below `n` stands somewhere in a permutation of them.
proof fn lemma_index_of(p: Seq<usize>, n: nat, x: usize) -> (m: int)
    requires
        is_permutation(p, n),
        x < n,
    ensures
        0 <= m < n,
        p[m] == x,
{
    assert(p.contains(x));
    choose|m: int| 0 <= m < p.len() && p[m] == x
}


/// Whether key `a` sorts strictly below key `b`.
pub fn key_less(a: &SortKey, b: &SortKey) -> (r: bool)
    ensures
        r == key_lt(*a, *b),
{
    match (a, b) {
        (SortKey::Number(x), SortKey::Number(y)) => *x < *y,
        (SortKey::Text(x), SortKey::Text(y)) => text_less(x.as_str(), y.as_str()),
        (SortKey::Number(_), SortKey::Text(_)) => true,
        (SortKey::Text(_), SortKey::Number(_)) => false,
    }
}

fn goes_before_exec(keys: &Vec<SortKey>, dir: Direction, i: usize, j: usize) -> (r: bool)
    requires
        i < keys.len(),
        j < keys.len(),
    ensures
        r == goes_before(keys@, dir, i as int, j as int),
{
    let a = &keys[i];
    let b = &keys[j];
    match dir {
        Direction::Ascending => key_less(a, b) || (!key_less(b, a) && i < j),
        Direction::Descending => key_less(b, a) || (!key_less(a, b) && i < j),
    }
}

/// `res` holds the indices below `i`, each once, in stable order.
pub open spec fn is_sorted_prefix(keys: Seq<SortKey>, dir: Direction, res: Seq<usize>, i: nat) -> bool {
    &&& res.len() == i
    &&& forall|k: int| 0 <= k < i ==> #[trigger] res[k] < i
    &&& forall|k1: int, k2: int| 0 <= k1 < k2 < i ==> #[trigger] res[k1] != #[trigger] res[k2]
    &&& forall|x: usize| x < i ==> #[trigger] res.contains(x)
    &&& forall|a: int, b: int|
        0 <= a < b < i ==> goes_before(keys, dir, #[trigger] res[a] as int, #[trigger] res[b] as int)
}

proof fn lemma_insert_sorted(keys: Seq<SortKey>, dir: Direction, res: Seq<usize>, i: nat, pos: int)
    requires
        i < keys.len(),
        i <= usize::MAX,
        is_sorted_prefix(keys, dir, res, i),
        0 <= pos <= res.len(),
        forall|q: int| 0 <= q < pos ==> goes_before(keys, dir, #[trigger] res[q] as int, i as int),
        forall|q: int| pos <= q < res.len() ==> goes_before(keys, dir, i as int, #[trigger] res[q] as int),
    ensures
        is_sorted_prefix(keys, dir, res.insert(pos, i as usize), i + 1),
{
    let new = res.insert(pos, i as usize);
    assert forall|k: int| 0 <= k < i + 1 implies #[trigger] new[k] < i + 1 by {
        if k < pos {
            assert(new[k] == res[k]);
        } else if k > pos {
            assert(new[k] == res[k - 1]);
        }
    }
    assert forall|k1: int, k2: int| 0 <= k1 < k2 < i + 1 implies #[trigger] new[k1] != #[trigger] new[k2] by {
        if k1 < pos && k2 < pos {
            assert(res[k1] != res[k2]);
        } else if k1 < pos && k2 > pos {
            assert(res[k1] != res[k2 - 1]);
        } else if k1 > pos && k2 > pos {
            assert(res[k1 - 1] != res[k2 - 1]);
        } else if k1 == pos {
            assert(new[k2] == res[k2 - 1]);
            assert(res[k2 - 1] < i);
        } else {
            assert(new[k1] == res[k1]);
            assert(res[k1] < i);
        }
    }
    assert forall|x: usize| x < i + 1 implies #[trigger] new.contains(x) by {
        if x == i {
            assert(new[pos] == x);
        } else {
            assert(res.contains(x));
            let m = choose|m: int| 0 <= m < res.len() && res[m] == x;
            if m < pos {
                assert(new[m] == x);
            } else {
                assert(new[m + 1] == x);
            }
        }
    }
    assert forall|a: int, b: int| 0 <= a < b < i + 1 implies goes_before(
        keys,
        dir,
        #[trigger] new[a] as int,
        #[trigger] new[b] as int,
    ) by {
        if a < pos && b < pos {
            assert(goes_before(keys, dir, res[a] as int, res[b] as int));
        } else if a < pos && b == pos {
            assert(goes_before(keys, dir, res[a] as int, i as int));
        } else if a < pos && b > pos {
            assert(goes_before(keys, dir, res[a] as int, res[b - 1] as int));
        } else if a == pos {
            assert(goes_before(keys, dir, i as int, res[b - 1] as int));
        } else {
            assert(goes_before(keys, dir, res[a - 1] as int, res[b - 1] as int));
        }
    }
}

/// The arrangement of indices that a stable sort of `keys` in direction
/// `dir` produces, computed by insertion.
pub fn stable_order(keys: &Vec<SortKey>, dir: Direction) -> (p: Vec<usize>)
    ensures
        is_stable_order(keys@, dir, p@),
        p@ == stable_order_spec(keys@, dir),
{
    let n = keys.len();
    let mut res: Vec<usize> = Vec::new();
    let mut i: usize = 0;
    while i < n
        invariant
            n == keys.len(),
            i <= n,
            is_sorted_prefix(keys@, dir, res@, i as nat),
        decreases n - i,
    {
        let mut pos: usize = 0;
        while pos < res.len() && goes_before_exec(keys, dir, res[pos], i)
            invariant
                n == keys.len(),
                i < n,
                is_sorted_prefix(keys@, dir, res@, i as nat),
                pos <= res.len(),
                forall|q: int| 0 <= q < pos ==> goes_before(keys@, dir, #[trigger] res@[q] as int, i as int),
            decreases res.len() - pos,
        {
            pos = pos + 1;
        }
        proof {
            if pos < res.len() {
                lemma_rest_goes_after(keys@, dir, res@, i as nat, pos as int);
            }
            lemma_insert_sorted(keys@, dir, res@, i as nat, pos as int);
        }
        res.insert(pos, i);
        i = i + 1;
    }
    proof {
        assert(is_stable_order(keys@, dir, res@));
        lemma_stable_order_unique(keys@, dir, res@, stable_order_spec(keys@, dir));
    }
    res
}


proof fn lemma_insert_position(keys: Seq<SortKey>, dir: Direction, res: Seq<usize>, i: nat, pos: int) -> (r: int)
    requires
        i < keys.len(),
        is_sorted_prefix(keys, dir, res, i),
        0 <= pos <= res.len(),
        forall|q: int| 0 <= q < pos ==> goes_before(keys, dir, #[trigger] res[q] as int, i as int),
    ensures
        0 <= r <= res.len(),
        forall|q: int| 0 <= q < r ==> goes_before(keys, dir, #[trigger] res[q] as int, i as int),
        forall|q: int| r <= q < res.len() ==> goes_before(keys, dir, i as int, #[trigger] res[q] as int),
    decreases res.len() - pos,
{
    if pos == res.len() {
        pos
    } else if goes_before(keys, dir, res[pos] as int, i as int) {
        lemma_insert_position(keys, dir, res, i, pos + 1)
    } else {
        lemma_rest_goes_after(keys, dir, res, i, pos);
        pos
    }
}

/// In a sorted prefix, once a record does not go before the new index `i`,
/// `i` goes before it and before every record after it.
proof fn lemma_rest_goes_after(keys: Seq<SortKey>, dir: Direction, res: Seq<usize>, i: nat, pos: int)
    requires
        i < keys.len(),
        is_sorted_prefix(keys, dir, res, i),
        0 <= pos < res.len(),
        !goes_before(keys, dir, res[pos] as int, i as int),
    ensures
        forall|q: int| pos <= q < res.len() ==> goes_before(keys, dir, i as int, #[trigger] res[q] as int),
{
    let x = res[pos] as int;
    lemma_goes_before_order(keys, dir, x, i as int, x);
    assert forall|q: int| pos <= q < res.len() implies goes_before(
        keys,
        dir,
        i as int,
        #[trigger] res[q] as int,
    ) by {
        if q > pos {
            assert(goes_before(keys, dir, x, res[q] as int));
            lemma_goes_before_order(keys, dir, i as int, x, res[q] as int);
        }
    }
}

proof fn lemma_sorted_prefix_exists(keys: Seq<SortKey>, dir: Direction, i: nat) -> (res: Seq<usize>)
    requires
        i <= keys.len(),
        keys.len() <= usize::MAX,
    ensures
        is_sorted_prefix(keys, dir, res, i),
    decreases i,
{
    if i == 0 {
        Seq::empty()
    } else {
        let prev = lemma_sorted_prefix_exists(keys, dir, (i - 1) as nat);
        let pos = lemma_insert_position(keys, dir, prev, (i - 1) as nat, 0);
        lemma_insert_sorted(keys, dir, prev, (i - 1) as nat, pos);
        prev.insert(pos, (i - 1) as usize)
    }
}

/// Every list of keys has a stable order (so `stable_order_spec` is one).
pub proof fn lemma_stable_order_exists(keys: Seq<SortKey>, dir: Direction)
    requires
        keys.len() <= usize::MAX,
    ensures
        is_stable_order(keys, dir, stable_order_spec(keys, dir)),
{
    let p = lemma_sorted_prefix_exists(keys, dir, keys.len());
    assert(is_stable_order(keys, dir, p));
}


/// Neither key sorts below the other.
pub open spec fn key_equiv(a: SortKey, b: SortKey) -> bool {
    !key_lt(a, b) && !key_lt(b, a)
}

/// Equivalent keys are of one kind with one value.
proof fn lemma_key_equiv_same(a: SortKey, b: SortKey)
    requires
        key_equiv(a, b),
    ensures
        match (a, b) {
            (SortKey::Number(x), SortKey::Number(y)) => x == y,
            (SortKey::Text(x), SortKey::Text(y)) => x@ == y@,
            _ => false,
        },
{
    if let (SortKey::Text(x), SortKey::Text(y)) = (a, b) {
        lemma_text_lt_total(x@, y@);
    }
}

proof fn lemma_key_equiv_transitive(a: SortKey, b: SortKey, c: SortKey)
    requires
        key_equiv(a, b),
        key_equiv(b, c),
    ensures
        key_equiv(a, c),
{
    lemma_key_equiv_same(a, b);
    lemma_key_equiv_same(b, c);
}

/// The keys taken along `x` never increase.
pub open spec fn keys_non_increasing(keys: Seq<SortKey>, x: Seq<usize>) -> bool {
    forall|a: int, b: int|
        0 <= a < b < x.len() ==> !key_lt(keys[#[trigger] x[a] as int], keys[#[trigger] x[b] as int])
}

/// `x` and `y` list the same indices of `keys`, each once.
pub open spec fn same_indices(keys: Seq<SortKey>, x: Seq<usize>, y: Seq<usize>) -> bool {
    &&& x.len() == y.len()
    &&& forall|k: int| 0 <= k < x.len() ==> #[trigger] x[k] < keys.len()
    &&& forall|k: int| 0 <= k < y.len() ==> #[trigger] y[k] < keys.len()
    &&& x.no_duplicates()
    &&& y.no_duplicates()
    &&& forall|k: int| 0 <= k < x.len() ==> y.contains(#[trigger] x[k])
    &&& forall|k: int| 0 <= k < y.len() ==> x.contains(#[trigger] y[k])
}

/// Two arrangements of the same indices whose keys never increase have
/// equivalent keys at every position.
pub proof fn lemma_sorted_keys_agree(keys: Seq<SortKey>, x: Seq<usize>, y: Seq<usize>)
    requires
        same_indices(keys, x, y),
        keys_non_increasing(keys, x),
        keys_non_increasing(keys, y),
    ensures
        forall|k: int| 0 <= k < x.len() ==> key_equiv(keys[#[trigger] x[k] as int], keys[y[k] as int]),
    decreases x.len(),
{
    if x.len() == 0 {
        return;
    }
    let v = y[0];
    let kv = keys[v as int];
    lemma_key_lt_irreflexive(kv);
    assert(x.contains(v));
    let m = choose|m: int| 0 <= m < x.len() && x[m] == v;
    // every position up to m holds a key equivalent to the largest one, kv
    assert forall|a: int| 0 <= a <= m implies key_equiv(#[trigger] keys[x[a] as int], kv) by {
        if a < m {
            assert(!key_lt(keys[x[a] as int], keys[x[m] as int]));
        }
        assert(y.contains(x[a]));
        let b = choose|b: int| 0 <= b < y.len() && y[b] == x[a];
        if b > 0 {
            assert(!key_lt(keys[y[0] as int], keys[y[b] as int]));
        }
    }
    let x2 = x.remove(m);
    let y2 = y.drop_first();
    assert forall|k: int| 0 <= k < x2.len() implies y2.contains(#[trigger] x2[k]) by {
        let xi = if k < m { k } else { k + 1 };
        assert(x2[k] == x[xi]);
        assert(x[xi] != v);
        assert(y.contains(x[xi]));
        let b = choose|b: int| 0 <= b < y.len() && y[b] == x[xi];
        assert(b != 0);
        assert(y2[b - 1] == x2[k]);
    }
    assert forall|k: int| 0 <= k < y2.len() implies x2.contains(#[trigger] y2[k]) by {
        assert(y2[k] == y[k + 1]);
        assert(y[k + 1] != v);
        assert(x.contains(y[k + 1]));
        let a = choose|a: int| 0 <= a < x.len() && x[a] == y[k + 1];
        assert(a != m);
        if a < m {
            assert(x2[a] == y2[k]);
        } else {
            assert(x2[a - 1] == y2[k]);
        }
    }
    assert forall|k: int| 0 <= k < x2.len() implies #[trigger] x2[k] < keys.len() by {
        if k >= m {
            assert(x2[k] == x[k + 1]);
        }
    }
    assert forall|k1: int, k2: int| 0 <= k1 < x2.len() && 0 <= k2 < x2.len() && k1 != k2 implies x2[k1] != x2[k2] by {
        let i1 = if k1 < m { k1 } else { k1 + 1 };
        let i2 = if k2 < m { k2 } else { k2 + 1 };
        assert(x2[k1] == x[i1] && x2[k2] == x[i2]);
    }
    assert forall|k1: int, k2: int| 0 <= k1 < y2.len() && 0 <= k2 < y2.len() && k1 != k2 implies y2[k1] != y2[k2] by {
        assert(y2[k1] == y[k1 + 1] && y2[k2] == y[k2 + 1]);
    }
    assert forall|a: int, b: int| 0 <= a < b < x2.len() implies !key_lt(
        keys[#[trigger] x2[a] as int],
        keys[#[trigger] x2[b] as int],
    ) by {
        let ia = if a < m { a } else { a + 1 };
        let ib = if b < m { b } else { b + 1 };
        assert(x2[a] == x[ia] && x2[b] == x[ib]);
        assert(!key_lt(keys[x[ia] as int], keys[x[ib] as int]));
    }
    assert forall|a: int, b: int| 0 <= a < b < y2.len() implies !key_lt(
        keys[#[trigger] y2[a] as int],
        keys[#[trigger] y2[b] as int],
    ) by {
        assert(!key_lt(keys[y[a + 1] as int], keys[y[b + 1] as int]));
    }
    lemma_sorted_keys_agree(keys, x2, y2);
    assert forall|k: int| 0 <= k < x.len() implies key_equiv(keys[#[trigger] x[k] as int], keys[y[k] as int]) by {
        if k == 0 {
            assert(key_equiv(keys[x[0] as int], kv));
        } else {
            assert(y[k] == y2[k - 1]);
            assert(key_equiv(keys[x2[k - 1] as int], keys[y2[k - 1] as int]));
            if k - 1 < m {
                assert(x2[k - 1] == x[k - 1]);
                assert(key_equiv(keys[x[k - 1] as int], kv));
                assert(key_equiv(keys[x[k] as int], kv));
                lemma_key_equiv_transitive(keys[x[k] as int], kv, keys[x[k - 1] as int]);
                lemma_key_equiv_transitive(keys[x[k] as int], keys[x[k - 1] as int], keys[y[k] as int]);
            } else {
                assert(x2[k - 1] == x[k]);
            }
        }
    }
}


proof fn lemma_key_lt_asymmetric(a: SortKey, b: SortKey)
    requires
        key_lt(a, b),
    ensures
        !key_lt(b, a),
{
    if key_lt(b, a) {
        lemma_key_lt_transitive(a, b, a);
        lemma_key_lt_irreflexive(a);
    }
}

proof fn lemma_permutation_same_indices(keys: Seq<SortKey>, x: Seq<usize>, y: Seq<usize>)
    requires
        is_permutation(x, keys.len()),
        is_permutation(y, keys.len()),
    ensures
        same_indices(keys, x, y),
{
    let n = keys.len();
    assert forall|k1: int, k2: int| 0 <= k1 < n && 0 <= k2 < n && k1 != k2 implies x[k1] != x[k2] by {
        if k1 < k2 {
            assert(x[k1] != x[k2]);
        } else {
            assert(x[k2] != x[k1]);
        }
    }
    assert forall|k1: int, k2: int| 0 <= k1 < n && 0 <= k2 < n && k1 != k2 implies y[k1] != y[k2] by {
        if k1 < k2 {
            assert(y[k1] != y[k2]);
        } else {
            assert(y[k2] != y[k1]);
        }
    }
    assert forall|k: int| 0 <= k < n implies y.contains(#[trigger] x[k]) by {
        assert(x[k] < n);
    }
    assert forall|k: int| 0 <= k < n implies x.contains(#[trigger] y[k]) by {
        assert(y[k] < n);
    }
}

/// Sorting again what a stable ascending sort, reversed, has arranged (the
/// indices `c` below) gives the stable descending sort of the keys, and
/// keeps the key at every position.
pub proof fn lemma_resort_reversed(keys: Seq<SortKey>)
    requires
        keys.len() <= usize::MAX,
    ensures
        ({
            let n = keys.len();
            let rp = stable_order_spec(keys, Direction::Ascending).reverse();
            let p2 = stable_order_spec(arrange(keys, rp), Direction::Ascending);
            let c = Seq::new(n, |k: int| rp[p2[n - 1 - k] as int]);
            &&& rp.len() == n
            &&& p2.len() == n
            &&& c == stable_order_spec(keys, Direction::Descending)
            &&& forall|k: int| 0 <= k < n ==> key_equiv(keys[#[trigger] c[k] as int], keys[rp[k] as int])
        }),
{
    let n = keys.len();
    let asc = Direction::Ascending;
    lemma_stable_order_exists(keys, asc);
    let p = stable_order_spec(keys, asc);
    let rp = p.reverse();
    let keys2 = arrange(keys, rp);
    assert(keys2.len() == n);
    lemma_stable_order_exists(keys2, asc);
    let p2 = stable_order_spec(keys2, asc);
    let c = Seq::new(n, |k: int| rp[p2[n - 1 - k] as int]);
    // rp is a permutation whose keys never increase
    assert forall|x: usize| x < n implies #[trigger] rp.contains(x) by {
        assert(p.contains(x));
        let m = choose|m: int| 0 <= m < p.len() && p[m] == x;
        assert(rp[n - 1 - m] == x);
    }
    assert forall|k1: int, k2: int| 0 <= k1 < k2 < n implies #[trigger] rp[k1] != #[trigger] rp[k2] by {
        assert(p[n - 1 - k2] != p[n - 1 - k1]);
    }
    assert forall|k: int| 0 <= k < n implies #[trigger] rp[k] < n by {
        assert(p[n - 1 - k] < n);
    }
    assert(is_permutation(rp, n));
    assert forall|a: int, b: int| 0 <= a < b < n implies !key_lt(
        keys[#[trigger] rp[a] as int],
        keys[#[trigger] rp[b] as int],
    ) by {
        assert(goes_before(keys, asc, p[n - 1 - b] as int, p[n - 1 - a] as int));
        if key_lt(keys[rp[b] as int], keys[rp[a] as int]) {
            lemma_key_lt_asymmetric(keys[rp[b] as int], keys[rp[a] as int]);
        }
    }
    // c is a permutation
    assert forall|k: int| 0 <= k < n implies #[trigger] c[k] < n by {
        assert(p2[n - 1 - k] < n);
    }
    assert forall|k1: int, k2: int| 0 <= k1 < k2 < n implies #[trigger] c[k1] != #[trigger] c[k2] by {
        assert(p2[n - 1 - k2] != p2[n - 1 - k1]);
        let i1 = p2[n - 1 - k1] as int;
        let i2 = p2[n - 1 - k2] as int;
        if i1 < i2 {
            assert(rp[i1] != rp[i2]);
        } else {
            assert(rp[i2] != rp[i1]);
        }
    }
    assert forall|x: usize| x < n implies #[trigger] c.contains(x) by {
        assert(rp.contains(x));
        let m = choose|m: int| 0 <= m < rp.len() && rp[m] == x;
        assert(p2.contains(m as usize));
        let t = choose|t: int| 0 <= t < p2.len() && p2[t] == m as usize;
        assert(c[n - 1 - t] == x);
    }
    assert(is_permutation(c, n));
    // c is the stable descending order
    let desc = Direction::Descending;
    assert forall|a: int, b: int| 0 <= a < b < c.len() implies goes_before(
        keys,
        desc,
        #[trigger] c[a] as int,
        #[trigger] c[b] as int,
    ) by {
        let i = p2[n - 1 - a] as int;
        let j = p2[n - 1 - b] as int;
        assert(goes_before(keys2, asc, j, i));
        assert(keys2[j] == keys[c[b] as int]);
        assert(keys2[i] == keys[c[a] as int]);
        if !key_lt(keys[c[b] as int], keys[c[a] as int]) {
            assert(goes_before(keys, asc, p[n - 1 - i] as int, p[n - 1 - j] as int));
        }
    }
    assert(is_stable_order(keys, desc, c));
    lemma_stable_order_exists(keys, desc);
    lemma_stable_order_unique(keys, desc, c, stable_order_spec(keys, desc));
    // the keys agree position by position
    assert forall|a: int, b: int| 0 <= a < b < n implies !key_lt(
        keys[#[trigger] c[a] as int],
        keys[#[trigger] c[b] as int],
    ) by {
        assert(goes_before(keys, desc, c[a] as int, c[b] as int));
        if key_lt(keys[c[b] as int], keys[c[a] as int]) {
            lemma_key_lt_asymmetric(keys[c[b] as int], keys[c[a] as int]);
        }
    }
    lemma_permutation_same_indices(keys, c, rp);
    lemma_sorted_keys_agree(keys, c, rp);
}

} // verus!
