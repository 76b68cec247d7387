//! Sorting that keeps equals in the order they came in.

use vstd::prelude::*;
use crate::text;

verus! {

/// Whether `p` lists the places of `keys` from the smallest key to the largest,
/// places with equal keys in the order they stand in.
pub open spec fn is_stable_order(keys: Seq<int>, p: Seq<int>) -> bool {
    &&& p.len() == keys.len()
    &&& forall|a: int| 0 <= a < p.len() ==> 0 <= #[trigger] p[a] < keys.len()
    &&& forall|a: int, b: int|
        0 <= a < b < p.len() ==> keys[#[trigger] p[a]] < keys[#[trigger] p[b]] || (keys[p[a]]
            == keys[p[b]] && p[a] < p[b])
}

/// Different places of a list of `n`, as many as there are, are all of them.
proof fn lemma_all_places(n: nat, p: Seq<int>)
    requires
        p.len() == n,
        forall|a: int| 0 <= a < p.len() ==> 0 <= #[trigger] p[a] < n,
        forall|a: int, b: int|
            0 <= a < b < p.len() ==> #[trigger] p[a] != #[trigger] p[b],
    ensures
        forall|i: int| 0 <= i < n ==> #[trigger] p.contains(i),
{
    let range = vstd::set_lib::set_int_range(0, n as int);
    assert(p.no_duplicates());
    p.unique_seq_to_set();
    vstd::set_lib::lemma_int_range(0, n as int);
    assert(p.to_set().subset_of(range));
    vstd::set_lib::lemma_subset_equality(p.to_set(), range);
    assert forall|i: int| 0 <= i < n implies #[trigger] p.contains(i) by {
        assert(range.contains(i));
        assert(p.to_set().contains(i));
    }
}

/// Sorting loses nothing: every place is listed, and none twice.
pub proof fn lemma_order_is_complete(keys: Seq<int>, p: Seq<int>)
    requires
        is_stable_order(keys, p),
    ensures
        forall|i: int| 0 <= i < keys.len() ==> #[trigger] p.contains(i),
        p.no_duplicates(),
{
    assert forall|a: int, b: int| 0 <= a < b < p.len() implies #[trigger] p[a]
        != #[trigger] p[b] by {}
    lemma_all_places(keys.len(), p);
}

/// Sorting is settled: there is one way to list the places.
pub proof fn lemma_order_is_unique(keys: Seq<int>, p: Seq<int>, q: Seq<int>)
    requires
        is_stable_order(keys, p),
        is_stable_order(keys, q),
    ensures
        p == q,
{
    assert forall|k: int| 0 <= k < p.len() implies p[k] == q[k] by {
        lemma_order_agrees(keys, p, q, k);
    }
    assert(p =~= q);
}

proof fn lemma_order_agrees(keys: Seq<int>, p: Seq<int>, q: Seq<int>, k: int)
    requires
        is_stable_order(keys, p),
        is_stable_order(keys, q),
        0 <= k < p.len(),
    ensures
        p[k] == q[k],
    decreases k,
{
    assert forall|j: int| 0 <= j < k implies p[j] == q[j] by {
        lemma_order_agrees(keys, p, q, j);
    }
    lemma_order_is_complete(keys, p);
    lemma_order_is_complete(keys, q);
    assert(q.contains(p[k]));
    let x = choose|x: int| 0 <= x < q.len() && q[x] == p[k];
    assert(p.contains(q[k]));
    let y = choose|y: int| 0 <= y < p.len() && p[y] == q[k];
    if x < k {
        assert(p[x] == q[x]);
    }
    if y < k {
        assert(p[y] == q[y]);
    }
    if x > k && y > k {
        assert(keys[q[k]] < keys[q[x]] || (keys[q[k]] == keys[q[x]] && q[k] < q[x]));
        assert(keys[p[k]] < keys[p[y]] || (keys[p[k]] == keys[p[y]] && p[k] < p[y]));
    }
}

/// The keys in the order of `p`.
pub open spec fn in_order(keys: Seq<int>, p: Seq<int>) -> Seq<int> {
    p.map_values(|i: int| keys[i])
}

/// Where entry `j` stood before each of two lists was sorted, the second list
/// standing behind the first.
pub open spec fn place_before(pa: Seq<int>, pb: Seq<int>, j: int) -> int {
    if j < pa.len() {
        pa[j]
    } else {
        pa.len() + pb[j - pa.len()]
    }
}

/// Sorting two lists as one is sorting them apart, and then what came out, the
/// first in front of the second.
pub proof fn lemma_sorting_in_parts(
    ka: Seq<int>,
    kb: Seq<int>,
    pa: Seq<int>,
    pb: Seq<int>,
    p: Seq<int>,
)
    requires
        is_stable_order(ka, pa),
        is_stable_order(kb, pb),
        is_stable_order(ka + kb, p),
    ensures
        exists|q: Seq<int>| #[trigger]
            is_stable_order(in_order(ka, pa) + in_order(kb, pb), q) && forall|k: int|
                0 <= k < q.len() ==> place_before(pa, pb, #[trigger] q[k]) == p[k],
{
    let n = p.len();
    let keys = ka + kb;
    let parts = in_order(ka, pa) + in_order(kb, pb);
    lemma_order_is_complete(ka, pa);
    lemma_order_is_complete(kb, pb);
    assert forall|k: int| 0 <= k < n implies exists|j: int|
        0 <= j < n && #[trigger] place_before(pa, pb, j) == #[trigger] p[k] by {
        let i = p[k];
        if i < ka.len() {
            assert(pa.contains(i));
            let j = choose|j: int| 0 <= j < pa.len() && pa[j] == i;
            assert(place_before(pa, pb, j) == i);
        } else {
            assert(pb.contains(i - ka.len()));
            let j = choose|j: int| 0 <= j < pb.len() && pb[j] == i - ka.len();
            assert(place_before(pa, pb, ka.len() + j) == i);
        }
    }
    let q = Seq::new(
        n,
        |k: int| choose|j: int| 0 <= j < n && #[trigger] place_before(pa, pb, j) == p[k],
    );
    assert forall|k: int| 0 <= k < n implies 0 <= #[trigger] q[k] < n && place_before(pa, pb, q[k])
        == p[k] by {
        assert(0 <= p[k] < n);
    }
    assert forall|j: int| 0 <= j < n implies #[trigger] parts[j] == keys[place_before(
        pa,
        pb,
        j,
    )] by {
        if j < pa.len() {
            assert(0 <= pa[j] < ka.len());
        } else {
            assert(0 <= pb[j - pa.len()] < kb.len());
        }
    }
    assert forall|a: int, b: int| 0 <= a < b < n implies parts[#[trigger] q[a]] < parts[#[trigger] q[b]]
        || (parts[q[a]] == parts[q[b]] && q[a] < q[b]) by {
        let x = q[a];
        let y = q[b];
        assert(parts[x] == keys[p[a]]);
        assert(parts[y] == keys[p[b]]);
        if keys[p[a]] == keys[p[b]] && x >= y {
            assert(p[a] < p[b]);
            if x < pa.len() {
                assert(ka[pa[y]] == ka[pa[x]]);
            } else if y >= pa.len() {
                assert(kb[pb[y - pa.len()]] == kb[pb[x - pa.len()]]);
            } else {
                assert(0 <= pa[y] < ka.len());
                assert(0 <= pb[x - pa.len()] < kb.len());
            }
        }
    }
    assert(is_stable_order(parts, q));
}

/// Sorting texts loses nothing: every place is listed, and none twice.
pub proof fn lemma_text_order_is_complete(keys: Seq<Seq<char>>, p: Seq<int>)
    requires
        is_stable_text_order(keys, p),
    ensures
        forall|i: int| 0 <= i < keys.len() ==> #[trigger] p.contains(i),
        p.no_duplicates(),
{
    assert forall|a: int, b: int| 0 <= a < b < p.len() implies #[trigger] p[a]
        != #[trigger] p[b] by {
        assert(in_text_order(keys, p[a], p[b]));
        if p[a] == p[b] {
            lemma_text_less_total(keys[p[a]], keys[p[a]]);
        }
    }
    lemma_all_places(keys.len(), p);
}

/// The values of a list of numbers.
pub open spec fn ints(v: Seq<i128>) -> Seq<int> {
    v.map_values(|n: i128| n as int)
}

/// The values of a list of places.
pub open spec fn places(v: Seq<usize>) -> Seq<int> {
    v.map_values(|n: usize| n as int)
}

/// The places of `keys` from the smallest key to the largest.
pub fn stable_order(keys: &Vec<i128>) -> (r: Vec<usize>)
    ensures
        is_stable_order(ints(keys@), places(r@)),
{
    let mut out: Vec<usize> = Vec::new();
    let mut i: usize = 0;
    while i < keys.len()
        invariant
            i <= keys@.len(),
            out@.len() == i,
            forall|a: int| 0 <= a < out@.len() ==> 0 <= #[trigger] out@[a] < i,
            forall|a: int, b: int|
                0 <= a < b < out@.len() ==> keys@[#[trigger] out@[a] as int]
                    < keys@[#[trigger] out@[b] as int] || (keys@[out@[a] as int]
                    == keys@[out@[b] as int] && out@[a] < out@[b]),
        decreases keys@.len() - i,
    {
        let mut at: usize = out.len();
        while at > 0 && keys[out[at - 1]] > keys[i]
            invariant
                at <= out@.len(),
                i < keys@.len(),
                forall|a: int| 0 <= a < out@.len() ==> 0 <= #[trigger] out@[a] < i,
                forall|a: int|
                    at <= a < out@.len() ==> keys@[#[trigger] out@[a] as int] > keys@[i as int],
            decreases at,
        {
            at -= 1;
        }
        let ghost before = out@;
        proof {
            assert forall|a: int| 0 <= a < at implies keys@[#[trigger] before[a] as int]
                <= keys@[i as int] by {
                if a < at - 1 {
                    assert(keys@[before[a] as int] <= keys@[before[at - 1] as int]);
                }
            }
        }
        out.insert(at, i);
        proof {
            assert(out@ =~= before.insert(at as int, i));
            assert forall|a: int, b: int| 0 <= a < b < out@.len() implies keys@[
            #[trigger] out@[a] as int] < keys@[#[trigger] out@[b] as int] || (keys@[out@[a] as int]
                == keys@[out@[b] as int] && out@[a] < out@[b]) by {
                let x = if a < at {
                    a
                } else {
                    a - 1
                };
                let y = if b < at {
                    b
                } else {
                    b - 1
                };
                if a != at && b != at {
                    assert(out@[a] == before[x]);
                    assert(out@[b] == before[y]);
                } else if a == at {
                    assert(out@[b] == before[y]);
                } else {
                    assert(out@[a] == before[x]);
                }
            }
        }
        i += 1;
    }
    assert(is_stable_order(ints(keys@), places(out@))) by {
        let p = places(out@);
        let k = ints(keys@);
        assert forall|a: int, b: int| 0 <= a < b < p.len() implies k[#[trigger] p[a]] < k[
        #[trigger] p[b]] || (k[p[a]] == k[p[b]] && p[a] < p[b]) by {
            assert(p[a] == out@[a]);
            assert(p[b] == out@[b]);
        }
        assert forall|a: int| 0 <= a < p.len() implies 0 <= #[trigger] p[a] < k.len() by {
            assert(p[a] == out@[a]);
        }
    }
    out
}

/// Whether text `a` comes before text `b`: character by character, and a text
/// before its own continuations.
pub open spec fn text_less(a: Seq<char>, b: Seq<char>) -> bool
    decreases a.len(),
{
    if b.len() == 0 {
        false
    } else if a.len() == 0 {
        true
    } else if a[0] == b[0] {
        text_less(a.skip(1), b.skip(1))
    } else {
        a[0] < b[0]
    }
}

/// No text comes before itself, and of two different texts one comes first.
pub proof fn lemma_text_less_total(a: Seq<char>, b: Seq<char>)
    ensures
        !text_less(a, a),
        text_less(a, b) ==> !text_less(b, a),
        a != b ==> text_less(a, b) || text_less(b, a),
    decreases a.len() + b.len(),
{
    if a.len() > 0 {
        lemma_text_less_total(a.skip(1), Seq::empty());
    }
    if a.len() > 0 && b.len() > 0 && a[0] == b[0] {
        lemma_text_less_total(a.skip(1), b.skip(1));
        if a.skip(1) == b.skip(1) {
            assert(a =~= seq![a[0]] + a.skip(1));
            assert(b =~= seq![b[0]] + b.skip(1));
        }
    } else if a.len() == 0 && b.len() == 0 {
        assert(a =~= b);
    }
}

/// Coming first carries over.
pub proof fn lemma_text_less_transitive(a: Seq<char>, b: Seq<char>, c: Seq<char>)
    requires
        text_less(a, b),
        text_less(b, c),
    ensures
        text_less(a, c),
    decreases a.len(),
{
    if a.len() > 0 && a[0] == b[0] && b[0] == c[0] {
        lemma_text_less_transitive(a.skip(1), b.skip(1), c.skip(1));
    }
}

/// Whether text `a` comes before text `b`.
pub fn is_before(a: &str, b: &str) -> (r: bool)
    ensures
        r == text_less(a@, b@),
{
    let x = text::to_chars(a);
    let y = text::to_chars(b);
    let mut i: usize = 0;
    assert(x@.skip(0) =~= x@);
    assert(y@.skip(0) =~= y@);
    while i < x.len() && i < y.len() && x[i] == y[i]
        invariant
            i <= x@.len(),
            i <= y@.len(),
            text_less(x@, y@) == text_less(x@.skip(i as int), y@.skip(i as int)),
        decreases x@.len() - i,
    {
        assert(x@.skip(i as int).skip(1) =~= x@.skip(i + 1));
        assert(y@.skip(i as int).skip(1) =~= y@.skip(i + 1));
        assert(x@.skip(i as int)[0] == x@[i as int]);
        assert(y@.skip(i as int)[0] == y@[i as int]);
        i += 1;
    }
    if i == y.len() {
        return false;
    }
    assert(y@.skip(i as int)[0] == y@[i as int]);
    if i == x.len() {
        return true;
    }
    assert(x@.skip(i as int)[0] == x@[i as int]);
    x[i] < y[i]
}

/// Whether `p` lists the places of `keys` from the first text to the last,
/// places with equal texts in the order they stand in.
pub open spec fn is_stable_text_order(keys: Seq<Seq<char>>, p: Seq<int>) -> bool {
    &&& p.len() == keys.len()
    &&& forall|a: int| 0 <= a < p.len() ==> 0 <= #[trigger] p[a] < keys.len()
    &&& forall|a: int, b: int|
        0 <= a < b < p.len() ==> in_text_order(keys, #[trigger] p[a], #[trigger] p[b])
}

/// Whether place `x` comes before place `y`.
pub open spec fn in_text_order(keys: Seq<Seq<char>>, x: int, y: int) -> bool {
    text_less(keys[x], keys[y]) || (keys[x] == keys[y] && x < y)
}

/// The places of `keys` from the first text to the last.
pub fn stable_text_order(keys: &Vec<String>) -> (r: Vec<usize>)
    ensures
        is_stable_text_order(text::views(keys@), places(r@)),
{
    let ghost ks = text::views(keys@);
    let mut out: Vec<usize> = Vec::new();
    let mut i: usize = 0;
    while i < keys.len()
        invariant
            ks == text::views(keys@),
            i <= keys@.len(),
            out@.len() == i,
            forall|a: int| 0 <= a < out@.len() ==> 0 <= #[trigger] out@[a] < i,
            forall|a: int, b: int|
                0 <= a < b < out@.len() ==> in_text_order(
                    ks,
                    (#[trigger] out@[a]) as int,
                    (#[trigger] out@[b]) as int,
                ),
        decreases keys@.len() - i,
    {
        let mut at: usize = out.len();
        while at > 0 && is_before(keys[i].as_str(), keys[out[at - 1]].as_str())
            invariant
                ks == text::views(keys@),
                at <= out@.len(),
                i < keys@.len(),
                forall|a: int| 0 <= a < out@.len() ==> 0 <= #[trigger] out@[a] < i,
                forall|a: int|
                    at <= a < out@.len() ==> text_less(
                        ks[i as int],
                        ks[(#[trigger] out@[a]) as int],
                    ),
            decreases at,
        {
            at -= 1;
        }
        let ghost before = out@;
        let ghost mine = ks[i as int];
        proof {
            assert forall|a: int| 0 <= a < at implies in_text_order(
                ks,
                (#[trigger] before[a]) as int,
                i as int,
            ) by {
                let last = before[at - 1] as int;
                lemma_text_less_total(ks[last], mine);
                if a < at - 1 {
                    assert(in_text_order(ks, before[a] as int, last));
                    if text_less(ks[before[a] as int], ks[last]) && text_less(ks[last], mine) {
                        lemma_text_less_transitive(ks[before[a] as int], ks[last], mine);
                    }
                }
            }
        }
        out.insert(at, i);
        proof {
            assert(out@ =~= before.insert(at as int, i));
            assert forall|a: int, b: int| 0 <= a < b < out@.len() implies in_text_order(
                ks,
                (#[trigger] out@[a]) as int,
                (#[trigger] out@[b]) as int,
            ) by {
                let x = if a < at {
                    a
                } else {
                    a - 1
                };
                let y = if b < at {
                    b
                } else {
                    b - 1
                };
                if a != at && b != at {
                    assert(out@[a] == before[x]);
                    assert(out@[b] == before[y]);
                } else if a == at {
                    assert(out@[b] == before[y]);
                } else {
                    assert(out@[a] == before[x]);
                }
            }
        }
        i += 1;
    }
    assert(is_stable_text_order(ks, places(out@))) by {
        let p = places(out@);
        assert forall|a: int, b: int| 0 <= a < b < p.len() implies in_text_order(
            ks,
            #[trigger] p[a],
            #[trigger] p[b],
        ) by {
            assert(p[a] == out@[a]);
            assert(p[b] == out@[b]);
        }
        assert forall|a: int| 0 <= a < p.len() implies 0 <= #[trigger] p[a] < ks.len() by {
            assert(p[a] == out@[a]);
        }
    }
    out
}

/// In a stable order a smaller key goes first, and of equal keys the one that
/// stood first.
pub proof fn lemma_smaller_goes_first(keys: Seq<int>, p: Seq<int>, a: int, b: int)
    requires
        is_stable_order(keys, p),
        0 <= a < b < p.len(),
    ensures
        p.len() == keys.len(),
        0 <= p[a] < keys.len(),
        0 <= p[b] < keys.len(),
        keys[p[a]] <= keys[p[b]],
        keys[p[a]] == keys[p[b]] ==> p[a] < p[b],
{
}

/// In a stable order of texts no text goes before one that comes before it, and
/// of equal texts the one that stood first goes first.
pub proof fn lemma_earlier_text_goes_first(keys: Seq<Seq<char>>, p: Seq<int>, a: int, b: int)
    requires
        is_stable_text_order(keys, p),
        0 <= a < b < p.len(),
    ensures
        p.len() == keys.len(),
        0 <= p[a] < keys.len(),
        0 <= p[b] < keys.len(),
        keys[p[a]] == keys[p[b]] || text_less(keys[p[a]], keys[p[b]]),
        keys[p[a]] == keys[p[b]] ==> p[a] < p[b],
{
    lemma_text_less_total(keys[p[a]], keys[p[b]]);
    assert(in_text_order(keys, p[a], p[b]));
}

/// Of two texts that begin alike, the one whose next letter is smaller comes
/// first, and a text comes before any that goes on behind it.
pub proof fn lemma_texts_by_first_difference(
    c: Seq<char>,
    x: char,
    r: Seq<char>,
    y: char,
    t: Seq<char>,
)
    ensures
        x != y ==> (text_less(c + seq![x] + r, c + seq![y] + t) <==> x < y),
        text_less(c, c + seq![y] + t),
        !text_less(c + seq![y] + t, c),
    decreases c.len(),
{
    let a = c + seq![x] + r;
    let b = c + seq![y] + t;
    if c.len() > 0 {
        lemma_texts_by_first_difference(c.skip(1), x, r, y, t);
        assert(a.skip(1) =~= c.skip(1) + seq![x] + r);
        assert(b.skip(1) =~= c.skip(1) + seq![y] + t);
    }
}

/// Keys and places are the numbers they are.
pub proof fn lemma_numbers_as_they_are(v: Seq<i128>, p: Seq<usize>, i: int)
    ensures
        ints(v).len() == v.len(),
        places(p).len() == p.len(),
        0 <= i < v.len() ==> ints(v)[i] == v[i],
        0 <= i < p.len() ==> places(p)[i] == p[i],
{
}

} // verus!
