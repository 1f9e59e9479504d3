//! Orderings used to keep comment threads in a stable, reproducible order:
//! lexicographic order on character sequences (which is the order Rust gives
//! `str`, since UTF-8 preserves code-point order), and a sort of composite keys;
//! and the cyclic stepping through `n` positions that search matches and diff
//! hunks share.

use vstd::prelude::*;

verus! {

/// Strict lexicographic order on character sequences, by code point.
pub open spec fn lex_lt(a: Seq<char>, b: Seq<char>) -> bool
    decreases a.len(),
{
    if b.len() == 0 {
        false
    } else if a.len() == 0 {
        true
    } else if a[0] != b[0] {
        (a[0] as int) < (b[0] as int)
    } else {
        lex_lt(a.drop_first(), b.drop_first())
    }
}

/// Text orders as Rust orders `str`: `a` precedes `b` exactly when, at the
/// first place they differ, `a` has the lower code point, or `a` is a proper
/// prefix of `b`.
pub proof fn lemma_lex_is_code_point_order(a: Seq<char>, b: Seq<char>)
    ensures
        lex_lt(a, b) <==> (
            (exists|p: int| 0 <= p < a.len() && p < b.len() && #[trigger] a.take(p) == b.take(p) && (a[p] as int) < (b[p] as int))
            || (a.len() < b.len() && b.take(a.len() as int) == a)),
    decreases a.len(),
{
    if b.len() == 0 {
    } else if a.len() == 0 {
        assert(b.take(0) =~= a);
    } else if a[0] != b[0] {
        if (a[0] as int) < (b[0] as int) {
            assert(a.take(0) =~= b.take(0));
        }
        assert forall|p: int| 0 <= p < a.len() && p < b.len() && #[trigger] a.take(p) == b.take(p) && (a[p] as int) < (b[p] as int)
            implies (a[0] as int) < (b[0] as int) by {
            if p > 0 {
                assert(a.take(p)[0] == b.take(p)[0]);
            }
        }
        if a.len() < b.len() && b.take(a.len() as int) == a {
            assert(b.take(a.len() as int)[0] == b[0]);
        }
    } else {
        let (a1, b1) = (a.drop_first(), b.drop_first());
        lemma_lex_is_code_point_order(a1, b1);
        if lex_lt(a1, b1) {
            if exists|p: int| 0 <= p < a1.len() && p < b1.len() && #[trigger] a1.take(p) == b1.take(p) && (a1[p] as int) < (b1[p] as int) {
                let p = choose|p: int| 0 <= p < a1.len() && p < b1.len() && #[trigger] a1.take(p) == b1.take(p) && (a1[p] as int) < (b1[p] as int);
                assert(a.take(p + 1) =~= seq![a[0]] + a1.take(p));
                assert(b.take(p + 1) =~= seq![b[0]] + b1.take(p));
                assert(a.take(p + 1) == b.take(p + 1));
            } else {
                assert(b.take(a.len() as int) =~= seq![b[0]] + b1.take(a1.len() as int));
                assert(a =~= seq![a[0]] + a1);
            }
        } else {
            assert forall|p: int| 0 <= p < a.len() && p < b.len() && #[trigger] a.take(p) == b.take(p)
                implies !((a[p] as int) < (b[p] as int)) by {
                if p == 0 {
                } else {
                    assert(a1.take(p - 1) =~= a.take(p).drop_first());
                    assert(b1.take(p - 1) =~= b.take(p).drop_first());
                    assert(a1[p - 1] == a[p] && b1[p - 1] == b[p]);
                    if (a[p] as int) < (b[p] as int) {
                        assert(a1.take(p - 1) == b1.take(p - 1));
                    }
                }
            }
            if a.len() < b.len() && b.take(a.len() as int) == a {
                assert(b1.take(a1.len() as int) =~= b.take(a.len() as int).drop_first());
                assert(a1 =~= a.drop_first());
            }
        }
    }
}

/// No sequence precedes itself.
pub proof fn lemma_lex_irreflexive(a: Seq<char>)
    ensures
        !lex_lt(a, a),
    decreases a.len(),
{
    if a.len() > 0 {
        lemma_lex_irreflexive(a.drop_first());
    }
}

/// Lexicographic order is transitive.
pub proof fn lemma_lex_transitive(a: Seq<char>, b: Seq<char>, c: Seq<char>)
    requires
        lex_lt(a, b),
        lex_lt(b, c),
    ensures
        lex_lt(a, c),
    decreases a.len(),
{
    if a.len() > 0 && b.len() > 0 && c.len() > 0 {
        if a[0] == b[0] && b[0] == c[0] {
            lemma_lex_transitive(a.drop_first(), b.drop_first(), c.drop_first());
        }
    }
}

/// Two different sequences are ordered one way or the other.
pub proof fn lemma_lex_total(a: Seq<char>, b: Seq<char>)
    requires
        a != b,
    ensures
        lex_lt(a, b) || lex_lt(b, a),
    decreases a.len(),
{
    if a.len() > 0 && b.len() > 0 && a[0] == b[0] {
        if a.drop_first() == b.drop_first() {
            assert(a =~= seq![a[0]] + a.drop_first());
            assert(b =~= seq![b[0]] + b.drop_first());
        }
        lemma_lex_total(a.drop_first(), b.drop_first());
    }
    if a.len() == 0 && b.len() == 0 {
        assert(a =~= b);
    }
}

/// Order is asymmetric.
pub proof fn lemma_lex_asymmetric(a: Seq<char>, b: Seq<char>)
    requires
        lex_lt(a, b),
    ensures
        !lex_lt(b, a),
{
    if lex_lt(b, a) {
        lemma_lex_transitive(a, b, a);
        lemma_lex_irreflexive(a);
    }
}

proof fn lemma_lex_skip(a: Seq<char>, b: Seq<char>, i: int)
    requires
        0 <= i <= a.len(),
        i <= b.len(),
        a.subrange(0, i) == b.subrange(0, i),
    ensures
        lex_lt(a, b) == lex_lt(a.skip(i), b.skip(i)),
    decreases i,
{
    if i > 0 {
        assert(a[0] == a.subrange(0, i)[0]);
        assert(b[0] == b.subrange(0, i)[0]);
        assert(a.drop_first().subrange(0, i - 1) =~= a.subrange(0, i).drop_first());
        assert(b.drop_first().subrange(0, i - 1) =~= b.subrange(0, i).drop_first());
        lemma_lex_skip(a.drop_first(), b.drop_first(), i - 1);
        assert(a.drop_first().skip(i - 1) =~= a.skip(i));
        assert(b.drop_first().skip(i - 1) =~= b.skip(i));
    } else {
        assert(a.skip(0) =~= a);
        assert(b.skip(0) =~= b);
    }
}

/// Compare two character sequences: `-1`, `0` or `1` as `a` precedes, equals or
/// follows `b`.
pub fn lex_compare(a: &[char], b: &[char]) -> (r: i8)
    ensures
        r == -1 <==> lex_lt(a@, b@),
        r == 0 <==> a@ == b@,
        r == 1 <==> lex_lt(b@, a@),
        r == -1 || r == 0 || r == 1,
{
    let mut i: usize = 0;
    while i < a.len() && i < b.len()
        invariant
            i <= a@.len(),
            i <= b@.len(),
            a@.subrange(0, i as int) == b@.subrange(0, i as int),
        decreases a@.len() - i,
    {
        if a[i] != b[i] {
            proof {
                lemma_lex_skip(a@, b@, i as int);
                lemma_lex_skip(b@, a@, i as int);
                assert(a@.skip(i as int)[0] == a@[i as int]);
                assert(b@.skip(i as int)[0] == b@[i as int]);
                if a@ == b@ {
                    assert(a@[i as int] == b@[i as int]);
                }
            }
            if a[i] < b[i] {
                proof { lemma_lex_asymmetric(a@, b@); }
                return -1;
            } else {
                proof { lemma_lex_asymmetric(b@, a@); }
                return 1;
            }
        }
        assert(a@.subrange(0, i + 1) =~= a@.subrange(0, i as int).push(a@[i as int]));
        assert(b@.subrange(0, i + 1) =~= b@.subrange(0, i as int).push(b@[i as int]));
        i = i + 1;
    }
    proof {
        lemma_lex_skip(a@, b@, i as int);
        lemma_lex_skip(b@, a@, i as int);
    }
    if a.len() == b.len() {
        proof {
            assert(a@ =~= a@.subrange(0, i as int));
            assert(b@ =~= b@.subrange(0, i as int));
            lemma_lex_irreflexive(a@);
        }
        0
    } else if a.len() < b.len() {
        proof {
            assert(a@.skip(i as int).len() == 0);
            assert(b@.skip(i as int).len() > 0);
            lemma_lex_asymmetric(a@, b@);
        }
        -1
    } else {
        proof {
            assert(b@.skip(i as int).len() == 0);
            assert(a@.skip(i as int).len() > 0);
            lemma_lex_asymmetric(b@, a@);
        }
        1
    }
}

/// A composite sort key: an optional line, two texts, and a position that makes
/// every key distinct and so keeps the sort stable.
pub struct SortKey {
    pub line: Option<u32>,
    pub first: Vec<char>,
    pub second: Vec<char>,
    pub position: usize,
}

/// `None` sorts before every line, and lines sort numerically.
pub open spec fn opt_line_lt(a: Option<u32>, b: Option<u32>) -> bool {
    match (a, b) {
        (None, Some(_)) => true,
        (Some(x), Some(y)) => x < y,
        _ => false,
    }
}

/// The mathematical value of a sort key.
pub struct KeyView {
    pub line: Option<u32>,
    pub first: Seq<char>,
    pub second: Seq<char>,
    pub position: int,
}

impl View for SortKey {
    type V = KeyView;

    open spec fn view(&self) -> KeyView {
        KeyView { line: self.line, first: self.first@, second: self.second@, position: self.position as int }
    }
}

/// Strict order on keys: by line, then the first text, then the second text,
/// then position.
pub open spec fn key_lt(x: KeyView, y: KeyView) -> bool {
    opt_line_lt(x.line, y.line) || (x.line == y.line && (lex_lt(x.first, y.first) || (x.first
        == y.first && (lex_lt(x.second, y.second) || (x.second == y.second && x.position
        < y.position)))))
}

proof fn lemma_key_transitive(x: KeyView, y: KeyView, z: KeyView)
    requires
        key_lt(x, y),
        key_lt(y, z),
    ensures
        key_lt(x, z),
{
    if lex_lt(x.first, y.first) && lex_lt(y.first, z.first) {
        lemma_lex_transitive(x.first, y.first, z.first);
    }
    if lex_lt(x.second, y.second) && lex_lt(y.second, z.second) {
        lemma_lex_transitive(x.second, y.second, z.second);
    }
}

proof fn lemma_key_total(x: KeyView, y: KeyView)
    requires
        x.position != y.position,
    ensures
        key_lt(x, y) || key_lt(y, x),
{
    if x.first != y.first {
        lemma_lex_total(x.first, y.first);
    }
    if x.second != y.second {
        lemma_lex_total(x.second, y.second);
    }
}

/// Whether `x` strictly precedes `y`.
pub fn key_less(x: &SortKey, y: &SortKey) -> (r: bool)
    ensures
        r == key_lt(x@, y@),
{
    let line_lt = match (x.line, y.line) {
        (None, Some(_)) => true,
        (Some(a), Some(b)) => a < b,
        _ => false,
    };
    if line_lt {
        return true;
    }
    if x.line != y.line {
        return false;
    }
    let c = lex_compare(x.first.as_slice(), y.first.as_slice());
    if c != 0 {
        return c == -1;
    }
    let d = lex_compare(x.second.as_slice(), y.second.as_slice());
    if d != 0 {
        return d == -1;
    }
    x.position < y.position
}

/// Whether `order` lists each of `0..n` exactly once.
pub open spec fn is_permutation(order: Seq<usize>, n: int) -> bool {
    &&& order.len() == n
    &&& forall|i: int| 0 <= i < n ==> order[i] < n
    &&& forall|i: int, j: int| 0 <= i < j < n ==> order[i] != order[j]
}

/// Whether `order` visits `keys` in strictly increasing key order.
pub open spec fn sorted_by_key(keys: Seq<KeyView>, order: Seq<usize>) -> bool {
    forall|i: int, j: int| 0 <= i < j < order.len() ==> key_lt(keys[order[i] as int], keys[order[j] as int])
}

/// The order of `keys` from smallest to largest, as positions into `keys`.
/// Keys must carry distinct positions, which makes the order unique.
pub fn sort_keys(keys: &Vec<SortKey>) -> (order: Vec<usize>)
    requires
        forall|i: int, j: int| 0 <= i < j < keys@.len() ==> keys@[i]@.position != keys@[j]@.position,
    ensures
        is_permutation(order@, keys@.len() as int),
        forall|x: usize| x < keys@.len() ==> order@.contains(x),
        sorted_by_key(keys@.map_values(|k: SortKey| k@), order@),
{
    let ghost kv = keys@.map_values(|k: SortKey| k@);
    let mut order: Vec<usize> = Vec::new();
    let mut k: usize = 0;
    while k < keys.len()
        invariant
            k <= keys@.len(),
            kv == keys@.map_values(|k: SortKey| k@),
            forall|i: int, j: int| 0 <= i < j < keys@.len() ==> keys@[i]@.position != keys@[j]@.position,
            is_permutation(order@, k as int),
            forall|x: usize| x < k ==> order@.contains(x),
            sorted_by_key(kv, order@),
        decreases keys@.len() - k,
    {
        let mut p: usize = 0;
        while p < order.len() && !key_less(&keys[k], &keys[order[p]])
            invariant
                p <= order@.len(),
                k < keys@.len(),
                order@.len() == k,
                kv == keys@.map_values(|k: SortKey| k@),
                is_permutation(order@, k as int),
                forall|q: int| 0 <= q < p ==> !key_lt(kv[k as int], kv[order@[q] as int]),
            decreases order@.len() - p,
        {
            p = p + 1;
        }
        let ghost old_order = order@;
        proof {
            assert forall|q: int| 0 <= q < p implies key_lt(kv[old_order[q] as int], kv[k as int]) by {
                assert(old_order[q] < k);
                lemma_key_total(kv[k as int], kv[old_order[q] as int]);
            }
            if p < old_order.len() {
                assert(key_lt(kv[k as int], kv[old_order[p as int] as int]));
                assert forall|q: int| p <= q < old_order.len() implies key_lt(kv[k as int], kv[old_order[q] as int]) by {
                    if q > p {
                        lemma_key_transitive(kv[k as int], kv[old_order[p as int] as int], kv[old_order[q] as int]);
                    }
                }
            }
        }
        order.insert(p, k);
        proof {
            assert forall|i: int, j: int| 0 <= i < j < order@.len() implies key_lt(kv[order@[i] as int], kv[order@[j] as int]) by {
                if j < p {
                    assert(order@[i] == old_order[i] && order@[j] == old_order[j]);
                } else if j == p {
                    assert(order@[i] == old_order[i]);
                } else if i < p {
                    assert(order@[i] == old_order[i] && order@[j] == old_order[j - 1]);
                    if p < old_order.len() {
                        lemma_key_transitive(kv[old_order[i] as int], kv[k as int], kv[old_order[j - 1] as int]);
                    }
                } else if i == p {
                    assert(order@[j] == old_order[j - 1]);
                } else {
                    assert(order@[i] == old_order[i - 1] && order@[j] == old_order[j - 1]);
                }
            }
            assert forall|i: int, j: int| 0 <= i < j < k + 1 implies order@[i] != order@[j] by {
                if j < p {
                    assert(order@[i] == old_order[i] && order@[j] == old_order[j]);
                } else if j == p {
                    assert(order@[i] == old_order[i]);
                } else if i < p {
                    assert(order@[i] == old_order[i] && order@[j] == old_order[j - 1]);
                } else if i == p {
                    assert(order@[j] == old_order[j - 1]);
                } else {
                    assert(order@[i] == old_order[i - 1] && order@[j] == old_order[j - 1]);
                }
            }
            assert forall|x: usize| x < k + 1 implies order@.contains(x) by {
                if x == k {
                    assert(order@[p as int] == k);
                } else {
                    assert(old_order.contains(x));
                    let q = choose|q: int| 0 <= q < old_order.len() && old_order[q] == x;
                    if q < p {
                        assert(order@[q] == x);
                    } else {
                        assert(order@[q + 1] == x);
                    }
                }
            }
            assert forall|i: int| 0 <= i < k + 1 implies order@[i] < k + 1 by {
                if i < p {
                    assert(order@[i] == old_order[i]);
                } else if i > p {
                    assert(order@[i] == old_order[i - 1]);
                }
            }
        }
        k = k + 1;
    }
    order
}


/// One step forward through `n` positions, wrapping past the last to the
/// first; with no positions there is nowhere to go.
pub open spec fn wrap_next(c: int, n: int) -> int {
    if n <= 0 { c } else { (c + 1) % n }
}

/// One step back through `n` positions, wrapping past the first to the last.
pub open spec fn wrap_prev(c: int, n: int) -> int {
    if n <= 0 { c } else { (c + n - 1) % n }
}

/// Where `k` steps forward from `c` land.
pub open spec fn wrap_next_times(c: int, n: int, k: nat) -> int
    decreases k,
{
    if k == 0 { c } else { wrap_next(wrap_next_times(c, n, (k - 1) as nat), n) }
}

/// Where `k` steps back from `c` land.
pub open spec fn wrap_prev_times(c: int, n: int, k: nat) -> int
    decreases k,
{
    if k == 0 { c } else { wrap_prev(wrap_prev_times(c, n, (k - 1) as nat), n) }
}

/// A step forward undoes a step back, and a step back undoes a step forward.
pub proof fn lemma_wrap_round_trip(c: int, n: int)
    requires
        0 <= c < n,
    ensures
        wrap_prev(wrap_next(c, n), n) == c,
        wrap_next(wrap_prev(c, n), n) == c,
{
    lemma_step_back(c + 1, n);
    lemma_step_on(c + n - 1, n);
    vstd::arithmetic::div_mod::lemma_mod_add_multiples_vanish(c, n);
    vstd::arithmetic::div_mod::lemma_small_mod(c as nat, n as nat);
    assert(c + n - 1 + 1 == n + c);
}

proof fn lemma_step_on(a: int, n: int)
    requires
        0 < n,
    ensures
        (a % n + 1) % n == (a + 1) % n,
{
    vstd::arithmetic::div_mod::lemma_add_mod_noop(a, 1, n);
    vstd::arithmetic::div_mod::lemma_add_mod_noop(a % n, 1, n);
    vstd::arithmetic::div_mod::lemma_mod_twice(a, n);
}

proof fn lemma_step_back(a: int, n: int)
    requires
        0 < n,
    ensures
        (a % n + n - 1) % n == (a - 1) % n,
{
    vstd::arithmetic::div_mod::lemma_add_mod_noop(a, n - 1, n);
    vstd::arithmetic::div_mod::lemma_small_mod((n - 1) as nat, n as nat);
    vstd::arithmetic::div_mod::lemma_mod_add_multiples_vanish(a - 1, n);
    assert(a + (n - 1) == n + (a - 1));
}

/// `k` steps forward from `c` land `k` positions on, modulo `n`.
pub proof fn lemma_wrap_next_times(c: int, n: int, k: nat)
    requires
        0 <= c < n,
    ensures
        wrap_next_times(c, n, k) == (c + k) % n,
    decreases k,
{
    if k == 0 {
        vstd::arithmetic::div_mod::lemma_small_mod(c as nat, n as nat);
    } else {
        lemma_wrap_next_times(c, n, (k - 1) as nat);
        lemma_step_on(c + k - 1, n);
    }
}

/// `k` steps back from `c` land `k` positions before it, modulo `n`.
pub proof fn lemma_wrap_prev_times(c: int, n: int, k: nat)
    requires
        0 <= c < n,
    ensures
        wrap_prev_times(c, n, k) == (c - k) % n,
    decreases k,
{
    if k == 0 {
        vstd::arithmetic::div_mod::lemma_small_mod(c as nat, n as nat);
    } else {
        lemma_wrap_prev_times(c, n, (k - 1) as nat);
        lemma_step_back(c - k + 1, n);
    }
}

/// `n` steps through `n` positions, either way, come back to the start.
pub proof fn lemma_wrap_full_circle(c: int, n: int)
    requires
        0 <= c < n,
    ensures
        wrap_next_times(c, n, n as nat) == c,
        wrap_prev_times(c, n, n as nat) == c,
{
    lemma_wrap_next_times(c, n, n as nat);
    lemma_wrap_prev_times(c, n, n as nat);
    vstd::arithmetic::div_mod::lemma_mod_add_multiples_vanish(c, n);
    vstd::arithmetic::div_mod::lemma_mod_sub_multiples_vanish(c, n);
    vstd::arithmetic::div_mod::lemma_small_mod(c as nat, n as nat);
}

} // verus!
