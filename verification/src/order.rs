//! Deterministic orderings: lexicographic text order and a stable sort
//! by (rank descending, text ascending).
use vstd::prelude::*;

verus! {

/// Lexicographic order on character sequences (the order of `String`,
/// whose UTF-8 byte order follows code points).
pub open spec fn lex_lt(a: Seq<char>, b: Seq<char>) -> bool
    decreases a.len(),
{
    if a.len() == 0 {
        b.len() > 0
    } else if b.len() == 0 {
        false
    } else if a[0] != b[0] {
        a[0] < b[0]
    } else {
        lex_lt(a.drop_first(), b.drop_first())
    }
}

pub proof fn lemma_lex_transitive(a: Seq<char>, b: Seq<char>, c: Seq<char>)
    requires
        lex_lt(a, b),
        lex_lt(b, c),
    ensures
        lex_lt(a, c),
    decreases a.len(),
{
    if a.len() > 0 && b.len() > 0 && c.len() > 0 {
        if a[0] == b[0] && b[0] == c[0] {
            lemma_lex_transitive(a.drop_first(), b.drop_first(), c.drop_first());
        }
    }
}

pub proof fn lemma_lex_total(a: Seq<char>, b: Seq<char>)
    ensures
        a == b || lex_lt(a, b) || lex_lt(b, a),
    decreases a.len(),
{
    if a.len() > 0 && b.len() > 0 && a[0] == b[0] {
        lemma_lex_total(a.drop_first(), b.drop_first());
        if a.drop_first() == b.drop_first() {
            assert(a.drop_first().len() == b.drop_first().len());
            assert(a.len() == b.len());
            assert forall|i: int| 0 <= i < a.len() implies a[i] == b[i] by {
                if i > 0 {
                    assert(a[i] == a.drop_first()[i - 1]);
                    assert(b[i] == b.drop_first()[i - 1]);
                }
            }
            assert(a =~= b);
        }
    } else if a.len() == 0 && b.len() == 0 {
        assert(a =~= b);
    }
}

pub proof fn lemma_lex_asymmetric(a: Seq<char>, b: Seq<char>)
    requires
        lex_lt(a, b),
    ensures
        !lex_lt(b, a),
    decreases a.len(),
{
    if a.len() > 0 && b.len() > 0 && a[0] == b[0] {
        lemma_lex_asymmetric(a.drop_first(), b.drop_first());
    }
}

/// Executable lexicographic comparison.
pub fn chars_lt(a: &[char], b: &[char]) -> (r: bool)
    ensures
        r == lex_lt(a@, b@),
{
    let mut i: usize = 0;
    proof {
        assert(a@.skip(0) == a@);
        assert(b@.skip(0) == b@);
    }
    while i < a.len() && i < b.len() && a[i] == b[i]
        invariant
            i <= a.len(),
            i <= b.len(),
            lex_lt(a@, b@) == lex_lt(a@.skip(i as int), b@.skip(i as int)),
        decreases a.len() - i,
    {
        proof {
            assert(a@.skip(i as int).drop_first() == a@.skip(i + 1));
            assert(b@.skip(i as int).drop_first() == b@.skip(i + 1));
        }
        i = i + 1;
    }
    if i == a.len() {
        i < b.len()
    } else if i == b.len() {
        false
    } else {
        a[i] < b[i]
    }
}

/// Sort key: a rank (higher first) and a text (lower first).
pub open spec fn key_view(k: (u64, Vec<char>)) -> (u64, Seq<char>) {
    (k.0, k.1@)
}

/// Entry `i` goes before entry `j`: higher rank, then smaller text, then
/// earlier position (stability).
pub open spec fn before(keys: Seq<(u64, Seq<char>)>, i: int, j: int) -> bool {
    ||| keys[i].0 > keys[j].0
    ||| (keys[i].0 == keys[j].0 && lex_lt(keys[i].1, keys[j].1))
    ||| (keys[i].0 == keys[j].0 && keys[i].1 == keys[j].1 && i < j)
}

/// `order` lists every index of `keys` exactly once.
pub open spec fn is_permutation(order: Seq<usize>, n: nat) -> bool {
    &&& order.len() == n
    &&& order.no_duplicates()
    &&& forall|k: int| 0 <= k < order.len() ==> (#[trigger] order[k]) < n
}

/// `order` is sorted by `before`.
pub open spec fn sorted_by_key(keys: Seq<(u64, Seq<char>)>, order: Seq<usize>) -> bool {
    forall|a: int, b: int|
        0 <= a < b < order.len() ==> before(keys, #[trigger] order[a] as int, #[trigger] order[b] as int)
}

proof fn lemma_before_transitive(keys: Seq<(u64, Seq<char>)>, i: int, j: int, k: int)
    requires
        before(keys, i, j),
        before(keys, j, k),
    ensures
        before(keys, i, k),
{
    if keys[i].0 == keys[j].0 && keys[j].0 == keys[k].0 {
        if lex_lt(keys[i].1, keys[j].1) && lex_lt(keys[j].1, keys[k].1) {
            lemma_lex_transitive(keys[i].1, keys[j].1, keys[k].1);
        }
    }
}

proof fn lemma_before_total(keys: Seq<(u64, Seq<char>)>, i: int, j: int)
    requires
        i != j,
    ensures
        before(keys, i, j) || before(keys, j, i),
{
    lemma_lex_total(keys[i].1, keys[j].1);
}

/// Executable `before`.
fn goes_before(keys: &Vec<(u64, Vec<char>)>, i: usize, j: usize) -> (r: bool)
    requires
        i < keys@.len(),
        j < keys@.len(),
    ensures
        r == before(keys@.map_values(|k: (u64, Vec<char>)| key_view(k)), i as int, j as int),
{
    let ghost kv = keys@.map_values(|k: (u64, Vec<char>)| key_view(k));
    proof {
        assert(kv[i as int] == key_view(keys@[i as int]));
        assert(kv[j as int] == key_view(keys@[j as int]));
    }
    if keys[i].0 > keys[j].0 {
        true
    } else if keys[i].0 < keys[j].0 {
        false
    } else if chars_lt(&keys[i].1, &keys[j].1) {
        true
    } else if chars_lt(&keys[j].1, &keys[i].1) {
        proof {
            lemma_lex_asymmetric(kv[j as int].1, kv[i as int].1);
        }
        false
    } else {
        proof {
            lemma_lex_total(kv[i as int].1, kv[j as int].1);
        }
        i < j
    }
}

/// Indices of `keys` in sorted order (rank descending, text ascending,
/// position ascending): a permutation, sorted, hence unique.
pub fn sort_order(keys: &Vec<(u64, Vec<char>)>) -> (order: Vec<usize>)
    ensures
        is_permutation(order@, keys@.len()),
        sorted_by_key(keys@.map_values(|k: (u64, Vec<char>)| key_view(k)), order@),
{
    let ghost kv = keys@.map_values(|k: (u64, Vec<char>)| key_view(k));
    let mut order: Vec<usize> = Vec::new();
    let mut n: usize = 0;
    while n < keys.len()
        invariant
            n <= keys@.len(),
            kv == keys@.map_values(|k: (u64, Vec<char>)| key_view(k)),
            order@.len() == n,
            order@.no_duplicates(),
            forall|k: int| 0 <= k < order@.len() ==> (#[trigger] order@[k]) < n,
            sorted_by_key(kv, order@),
        decreases keys.len() - n,
    {
        let mut p: usize = 0;
        while p < order.len() && goes_before(keys, order[p], n)
            invariant
                p <= order@.len(),
                n < keys@.len(),
                kv == keys@.map_values(|k: (u64, Vec<char>)| key_view(k)),
                forall|k: int| 0 <= k < order@.len() ==> (#[trigger] order@[k]) < n,
                forall|k: int| 0 <= k < p ==> before(kv, #[trigger] order@[k] as int, n as int),
            decreases order.len() - p,
        {
            p = p + 1;
        }
        let ghost old_order = order@;
        proof {
            if p < old_order.len() {
                lemma_before_total(kv, old_order[p as int] as int, n as int);
            }
            assert forall|k: int| p <= k < old_order.len() implies before(
                kv,
                n as int,
                #[trigger] old_order[k] as int,
            ) by {
                if k > p {
                    assert(before(kv, old_order[p as int] as int, old_order[k] as int));
                    lemma_before_transitive(kv, n as int, old_order[p as int] as int, old_order[k] as int);
                }
            }
        }
        order.insert(p, n);
        proof {
            assert(order@ == old_order.insert(p as int, n));
            assert forall|a: int, b: int| 0 <= a < b < order@.len() implies before(
                kv,
                #[trigger] order@[a] as int,
                #[trigger] order@[b] as int,
            ) by {
                if a < p && b == p {
                } else if a < p && b > p {
                    assert(order@[b] == old_order[b - 1]);
                } else if a == p {
                    assert(order@[b] == old_order[b - 1]);
                } else if a > p {
                    assert(order@[a] == old_order[a - 1]);
                    assert(order@[b] == old_order[b - 1]);
                }
            }
            assert forall|i: int, j: int|
                0 <= i < order@.len() && 0 <= j < order@.len() && i != j implies order@[i]
                != order@[j] by {
                if i != p && j != p {
                    let oi = if i < p { i } else { i - 1 };
                    let oj = if j < p { j } else { j - 1 };
                    assert(order@[i] == old_order[oi]);
                    assert(order@[j] == old_order[oj]);
                } else if i == p {
                    let oj = if j < p { j } else { j - 1 };
                    assert(order@[j] == old_order[oj]);
                } else {
                    let oi = if i < p { i } else { i - 1 };
                    assert(order@[i] == old_order[oi]);
                }
            }
            assert forall|k: int| 0 <= k < order@.len() implies (#[trigger] order@[k]) < n + 1 by {
                if k < p {
                    assert(order@[k] == old_order[k]);
                } else if k > p {
                    assert(order@[k] == old_order[k - 1]);
                }
            }
        }
        n = n + 1;
    }
    order
}

} // verus!
