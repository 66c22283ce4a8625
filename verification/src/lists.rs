//! Lists of ids: removal, membership, ascending order.
use vstd::prelude::*;

verus! {

/// `s` without any occurrence of `x`, the rest in order.
pub open spec fn without(s: Seq<u32>, x: u32) -> Seq<u32>
    decreases s.len(),
{
    if s.len() == 0 {
        s
    } else if s.last() == x {
        without(s.drop_last(), x)
    } else {
        without(s.drop_last(), x).push(s.last())
    }
}

/// `x` put in front of `s`.
pub open spec fn fronted(x: u32, s: Seq<u32>) -> Seq<u32> {
    seq![x] + s
}

/// The elements of `s` in ascending order.
pub open spec fn ascending(s: Seq<u32>) -> Seq<u32> {
    s.sort_by(|a: u32, b: u32| a <= b)
}

pub proof fn lemma_without(s: Seq<u32>, x: u32)
    ensures
        forall|y: u32| #[trigger] without(s, x).contains(y) <==> s.contains(y) && y != x,
        s.no_duplicates() ==> without(s, x).no_duplicates(),
        !s.contains(x) ==> without(s, x) == s,
        without(s, x).len() <= s.len(),
    decreases s.len(),
{
    if s.len() > 0 {
        let front = s.drop_last();
        let kept = without(front, x);
        lemma_without(front, x);
        assert forall|y: u32| #[trigger]
            without(s, x).contains(y) <==> s.contains(y) && y != x by {
            if without(s, x).contains(y) {
                let i = choose|i: int| 0 <= i < without(s, x).len() && without(s, x)[i] == y;
                if i < kept.len() {
                    assert(kept[i] == y);
                    assert(kept.contains(y));
                    assert(front.contains(y));
                    let j = choose|j: int| 0 <= j < front.len() && front[j] == y;
                    assert(s[j] == y);
                } else {
                    assert(s[s.len() - 1] == y);
                }
            }
            if s.contains(y) && y != x {
                let j = choose|j: int| 0 <= j < s.len() && s[j] == y;
                if j < front.len() {
                    assert(front[j] == y);
                    assert(front.contains(y));
                    assert(kept.contains(y));
                    let i = choose|i: int| 0 <= i < kept.len() && kept[i] == y;
                    assert(without(s, x)[i] == y);
                } else {
                    assert(without(s, x)[kept.len() as int] == y);
                }
            }
        }
        if s.no_duplicates() {
            assert(front.no_duplicates());
            if s.last() != x {
                assert forall|i: int, j: int|
                    0 <= i < j < without(s, x).len() implies without(s, x)[i]
                    != without(s, x)[j] by {
                    if j == kept.len() && without(s, x)[i] == s.last() {
                        assert(kept.contains(s.last()));
                        assert(front.contains(s.last()));
                        let k = choose|k: int| 0 <= k < front.len() && front[k] == s.last();
                        assert(s[k] == s[s.len() - 1]);
                    }
                }
            }
        }
        if !s.contains(x) {
            assert(s[s.len() - 1] == s.last());
            assert(!front.contains(x)) by {
                if front.contains(x) {
                    let k = choose|k: int| 0 <= k < front.len() && front[k] == x;
                    assert(s[k] == x);
                }
            }
            assert(without(s, x) =~= s);
        }
    }
}

pub proof fn lemma_fronted(x: u32, s: Seq<u32>)
    ensures
        forall|y: u32| #[trigger] fronted(x, s).contains(y) <==> y == x || s.contains(y),
        s.no_duplicates() && !s.contains(x) ==> fronted(x, s).no_duplicates(),
{
    let t = fronted(x, s);
    assert forall|y: u32| #[trigger] t.contains(y) <==> y == x || s.contains(y) by {
        if t.contains(y) {
            let i = choose|i: int| 0 <= i < t.len() && t[i] == y;
            if i > 0 {
                assert(s[i - 1] == y);
            }
        }
        if y == x {
            assert(t[0] == y);
        }
        if s.contains(y) {
            let i = choose|i: int| 0 <= i < s.len() && s[i] == y;
            assert(t[i + 1] == y);
        }
    }
}

/// A copy of `v` without any occurrence of `x`.
pub(crate) fn without_id(v: &Vec<u32>, x: u32) -> (r: Vec<u32>)
    ensures
        r@ == without(v@, x),
{
    let mut out: Vec<u32> = Vec::new();
    let mut i: usize = 0;
    while i < v.len()
        invariant
            i <= v@.len(),
            out@ == without(v@.take(i as int), x),
        decreases v@.len() - i,
    {
        assert(v@.take(i + 1).drop_last() =~= v@.take(i as int));
        if v[i] != x {
            out.push(v[i]);
        }
        i = i + 1;
    }
    assert(v@.take(v@.len() as int) =~= v@);
    out
}

pub(crate) fn has_id(v: &Vec<u32>, x: u32) -> (r: bool)
    ensures
        r == v@.contains(x),
{
    let mut i: usize = 0;
    while i < v.len()
        invariant
            i <= v@.len(),
            forall|j: int| 0 <= j < i ==> v@[j] != x,
        decreases v@.len() - i,
    {
        if v[i] == x {
            return true;
        }
        i = i + 1;
    }
    false
}

/// The index of the first occurrence of `x` in `v`.
pub(crate) fn index_of_id(v: &Vec<u32>, x: u32) -> (r: Option<usize>)
    ensures
        match r {
            Some(i) => i < v@.len() && v@[i as int] == x && forall|j: int|
                0 <= j < i ==> v@[j] != x,
            None => !v@.contains(x),
        },
{
    let mut i: usize = 0;
    while i < v.len()
        invariant
            i <= v@.len(),
            forall|j: int| 0 <= j < i ==> v@[j] != x,
        decreases v@.len() - i,
    {
        if v[i] == x {
            return Some(i);
        }
        i = i + 1;
    }
    None
}

/// The Euclidean remainder of `x` by `n`: `x` wrapped into `0..n`.
pub(crate) fn wrapped(x: i128, n: i128) -> (r: i128)
    requires
        n > 0,
        x > i128::MIN,
    ensures
        r == x as int % n as int,
        0 <= r < n,
{
    if x >= 0 {
        x % n
    } else {
        let m: i128 = (-x) % n;
        if m == 0 {
            proof {
                let q = (-x) as int / n as int;
                vstd::arithmetic::div_mod::lemma_fundamental_div_mod((-x) as int, n as int);
                assert(x as int == (-q) * n + 0) by (nonlinear_arith)
                    requires
                        -(x as int) == n * q + 0,
                ;
                vstd::arithmetic::div_mod::lemma_fundamental_div_mod_converse(
                    x as int,
                    n as int,
                    -q,
                    0,
                );
            }
            0
        } else {
            proof {
                let q = (-x) as int / n as int;
                vstd::arithmetic::div_mod::lemma_fundamental_div_mod((-x) as int, n as int);
                assert(x as int == (-q - 1) * n + (n - m)) by (nonlinear_arith)
                    requires
                        -(x as int) == n * q + m,
                ;
                vstd::arithmetic::div_mod::lemma_fundamental_div_mod_converse(
                    x as int,
                    n as int,
                    -q - 1,
                    n - m,
                );
            }
            n - m
        }
    }
}

/// The ids of `v` in ascending order.
pub(crate) fn sorted_ids(v: &Vec<u32>) -> (r: Vec<u32>)
    ensures
        r@ == ascending(v@),
{
    let mut out: Vec<u32> = Vec::new();
    assert(out@ =~= v@.take(0));
    let mut i: usize = 0;
    while i < v.len()
        invariant
            i <= v@.len(),
            out@.len() == i,
            forall|a: int, b: int| 0 <= a < b < out@.len() ==> out@[a] <= out@[b],
            out@.to_multiset() =~= v@.take(i as int).to_multiset(),
        decreases v@.len() - i,
    {
        let x: u32 = v[i];
        let mut at: usize = 0;
        while at < out.len() && out[at] <= x
            invariant
                at <= out@.len(),
                forall|a: int| 0 <= a < at ==> out@[a] <= x,
            decreases out@.len() - at,
        {
            at = at + 1;
        }
        let ghost before = out@;
        out.insert(at, x);
        proof {
            assert(out@ =~= before.insert(at as int, x));
            before.to_multiset_ensures();
            vstd::seq_lib::to_multiset_insert(before, at as int, x);
            assert(v@.take(i + 1) =~= v@.take(i as int).push(x));
            vstd::seq_lib::to_multiset_build(v@.take(i as int), x);
        }
        i = i + 1;
    }
    proof {
        assert(v@.take(v@.len() as int) =~= v@);
        lemma_sorted_is_ascending(v@, out@);
    }
    out
}

/// A list in ascending order with the elements of `s` is `ascending(s)`.
pub proof fn lemma_sorted_is_ascending(s: Seq<u32>, t: Seq<u32>)
    requires
        s.to_multiset() == t.to_multiset(),
        forall|a: int, b: int| 0 <= a < b < t.len() ==> t[a] <= t[b],
    ensures
        t == ascending(s),
{
    let leq = |a: u32, b: u32| a <= b;
    assert(vstd::relations::total_ordering(leq));
    s.lemma_sort_by_ensures(leq);
    assert(vstd::relations::sorted_by(t, leq));
    vstd::seq_lib::lemma_sorted_unique(t, s.sort_by(leq), leq);
}

/// Ascending order keeps the elements.
pub proof fn lemma_ascending(s: Seq<u32>)
    ensures
        ascending(s).len() == s.len(),
        ascending(s).to_multiset() == s.to_multiset(),
        forall|x: u32| #[trigger] ascending(s).contains(x) <==> s.contains(x),
        forall|a: int, b: int|
            0 <= a < b < ascending(s).len() ==> ascending(s)[a] <= ascending(s)[b],
        s.no_duplicates() ==> ascending(s).no_duplicates(),
{
    let leq = |a: u32, b: u32| a <= b;
    assert(vstd::relations::total_ordering(leq));
    s.lemma_sort_by_ensures(leq);
    let t = ascending(s);
    s.to_multiset_ensures();
    t.to_multiset_ensures();
    assert forall|x: u32| #[trigger] t.contains(x) <==> s.contains(x) by {
        assert(t.to_multiset().count(x) == s.to_multiset().count(x));
    }
    assert(vstd::relations::sorted_by(t, leq));
    assert forall|a: int, b: int| 0 <= a < b < t.len() implies t[a] <= t[b] by {
        assert(leq(t[a], t[b]));
    }
    if s.no_duplicates() {
        s.lemma_multiset_has_no_duplicates();
        t.lemma_multiset_has_no_duplicates_conv();
    }
}

} // verus!
