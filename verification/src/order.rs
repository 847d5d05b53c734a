//! Order: how texts compare, and the stable order of a list under a given rule.

use vstd::prelude::*;
use vstd::utf8::char_u32_cast;

use crate::text::chars_of;

verus! {

/// Whether `a` comes before `b` in the order of texts: at the first place where they differ it
/// has the smaller character, or it is a proper start of `b`.
pub open spec fn text_before(a: Seq<char>, b: Seq<char>) -> bool
    decreases a.len(),
{
    if b.len() == 0 {
        false
    } else if a.len() == 0 {
        true
    } else if a[0] != b[0] {
        (a[0] as u32) < (b[0] as u32)
    } else {
        text_before(a.drop_first(), b.drop_first())
    }
}

/// Of two different texts, one comes first.
pub proof fn lemma_text_total(a: Seq<char>, b: Seq<char>)
    ensures
        text_before(a, b) || text_before(b, a) || a == b,
        !(text_before(a, b) && text_before(b, a)),
    decreases a.len(),
{
    if a.len() > 0 && b.len() > 0 && a[0] == b[0] {
        lemma_text_total(a.drop_first(), b.drop_first());
        if a.drop_first() == b.drop_first() {
            assert(seq![a[0]] + a.drop_first() =~= a);
            assert(seq![b[0]] + b.drop_first() =~= b);
        }
    } else if a.len() == 0 && b.len() == 0 {
        assert(a =~= b);
    } else if a.len() > 0 && b.len() > 0 {
        char_u32_cast(a[0], a[0] as u32);
        char_u32_cast(b[0], b[0] as u32);
    }
}

pub proof fn lemma_text_transitive(a: Seq<char>, b: Seq<char>, c: Seq<char>)
    requires
        text_before(a, b),
        text_before(b, c),
    ensures
        text_before(a, c),
    decreases a.len(),
{
    if a.len() > 0 && b.len() > 0 && c.len() > 0 && a[0] == b[0] && b[0] == c[0] {
        lemma_text_transitive(a.drop_first(), b.drop_first(), c.drop_first());
    }
}

/// Whether `a` comes before `b` in the order of texts.
pub fn text_less(a: &str, b: &str) -> (r: bool)
    ensures
        r == text_before(a@, b@),
{
    let x = chars_of(a);
    let y = chars_of(b);
    let mut i: usize = 0;
    assert(x@.skip(0) =~= x@);
    assert(y@.skip(0) =~= y@);
    while i < x.len() && i < y.len()
        invariant
            i <= x@.len(),
            i <= y@.len(),
            text_before(x@.skip(i as int), y@.skip(i as int)) == text_before(a@, b@),
        decreases x@.len() - i,
    {
        let ghost p = x@.skip(i as int);
        let ghost q = y@.skip(i as int);
        assert(p[0] == x@[i as int] && q[0] == y@[i as int]);
        assert(p.drop_first() =~= x@.skip(i + 1));
        assert(q.drop_first() =~= y@.skip(i + 1));
        if x[i] != y[i] {
            return (x[i] as u32) < (y[i] as u32);
        }
        i += 1;
    }
    i < y.len()
}

/// A rule that says which of two indexes goes first and calls the others equal.
pub open spec fn weak_order(n: nat, less: spec_fn(int, int) -> bool) -> bool {
    &&& forall|a: int, b: int|
        0 <= a < n && 0 <= b < n && #[trigger] less(a, b) ==> !less(b, a)
    &&& forall|a: int, b: int, c: int|
        0 <= a < n && 0 <= b < n && 0 <= c < n && #[trigger] less(a, b) ==> (#[trigger] less(a, c)
            || less(c, b))
}

/// Whether index `a` stands before index `b` in the stable order: by the rule, and by position
/// where the rule calls them equal.
pub open spec fn stands_before(less: spec_fn(int, int) -> bool, a: int, b: int) -> bool {
    less(a, b) || (!less(b, a) && a < b)
}

/// Whether `order` lists the indexes below `n`, each once, in the stable order.
pub open spec fn stable_order(order: Seq<usize>, n: nat, less: spec_fn(int, int) -> bool) -> bool {
    &&& order.len() == n
    &&& forall|i: int| 0 <= i < n ==> (#[trigger] order[i]) < n
    &&& forall|i: int, j: int|
        0 <= i < j < n ==> stands_before(less, #[trigger] order[i] as int, #[trigger] order[j] as int)
}

/// No index stands before itself, so a stable order names each index once.
pub proof fn lemma_stable_order_distinct(
    order: Seq<usize>,
    n: nat,
    less: spec_fn(int, int) -> bool,
)
    requires
        stable_order(order, n, less),
        weak_order(n, less),
    ensures
        order.no_duplicates(),
{
    assert forall|i: int, j: int| 0 <= i < order.len() && 0 <= j < order.len() && i != j implies order[i]
        != order[j] by {
        if i < j {
            assert(stands_before(less, order[i] as int, order[j] as int));
        } else {
            assert(stands_before(less, order[j] as int, order[i] as int));
        }
    }
}

/// The stable order of the indexes below `n` under the rule that `less` decides.
pub(crate) fn stable_sort<F: Fn(usize, usize) -> bool>(
    n: usize,
    less: F,
    Ghost(rule): Ghost<spec_fn(int, int) -> bool>,
) -> (r: Vec<usize>)
    requires
        forall|a: usize, b: usize| a < n && b < n ==> call_requires(less, (a, b)),
        forall|a: usize, b: usize, x: bool|
            a < n && b < n && call_ensures(less, (a, b), x) ==> x == rule(a as int, b as int),
        weak_order(n as nat, rule),
    ensures
        stable_order(r@, n as nat, rule),
{
    let mut r: Vec<usize> = Vec::new();
    let mut k: usize = 0;
    while k < n
        invariant
            k <= n,
            stable_order(r@, k as nat, rule),
            weak_order(n as nat, rule),
            forall|a: usize, b: usize| a < n && b < n ==> call_requires(less, (a, b)),
            forall|a: usize, b: usize, x: bool|
                a < n && b < n && call_ensures(less, (a, b), x) ==> x == rule(a as int, b as int),
        decreases n - k,
    {
        let mut p: usize = k;
        while p > 0 && less(k, r[p - 1])
            invariant
                k < n,
                p <= k,
                stable_order(r@, k as nat, rule),
                forall|j: int| p <= j < k ==> rule(k as int, #[trigger] r@[j] as int),
                forall|a: usize, b: usize| a < n && b < n ==> call_requires(less, (a, b)),
                forall|a: usize, b: usize, x: bool|
                    a < n && b < n && call_ensures(less, (a, b), x) ==> x == rule(
                        a as int,
                        b as int,
                    ),
            decreases p,
        {
            p -= 1;
        }
        let ghost before = r@;
        r.insert(p, k);
        proof {
            assert forall|j: int| 0 <= j < p implies !rule(k as int, #[trigger] before[j] as int) by {
                let last = before[p - 1] as int;
                assert(!rule(k as int, last));
                if rule(k as int, before[j] as int) && j < p - 1 {
                    assert(stands_before(rule, before[j] as int, last));
                    assert(rule(k as int, last) || rule(last, before[j] as int));
                }
            }
            assert forall|i: int, j: int| 0 <= i < j < k + 1 implies stands_before(
                rule,
                #[trigger] r@[i] as int,
                #[trigger] r@[j] as int,
            ) by {
                if i < p && j < p {
                    assert(r@[i] == before[i] && r@[j] == before[j]);
                } else if i < p && j == p {
                    assert(r@[i] == before[i]);
                } else if i < p {
                    assert(r@[i] == before[i] && r@[j] == before[j - 1]);
                } else if i == p {
                    assert(r@[j] == before[j - 1]);
                } else {
                    assert(r@[i] == before[i - 1] && r@[j] == before[j - 1]);
                }
            }
            assert forall|i: int| 0 <= i < k + 1 implies (#[trigger] r@[i]) < k + 1 by {
                if i < p {
                    assert(r@[i] == before[i]);
                } else if i > p {
                    assert(r@[i] == before[i - 1]);
                }
            }
        }
        k += 1;
    }
    r
}

} // verus!
