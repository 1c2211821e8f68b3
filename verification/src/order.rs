//! Sorting: a stable sort by rank, and the alphabetical order of strings.

use vstd::prelude::*;
use crate::text::chars_of;

verus! {

/// A type whose values have a rank. Two values may share one.
pub trait Ranked: Sized {
    /// Ranks no later than `other`.
    spec fn leq(&self, other: &Self) -> bool;

    /// Any two values can be ranked.
    proof fn total(a: &Self, b: &Self)
        ensures
            a.leq(b) || b.leq(a),
    ;

    proof fn transitive(a: &Self, b: &Self, c: &Self)
        requires
            a.leq(b),
            b.leq(c),
        ensures
            a.leq(c),
    ;

    /// Ranks no later than `other`.
    fn no_later(&self, other: &Self) -> (r: bool)
        ensures
            r == self.leq(other),
    ;
}

/// The values that share the rank of `x`.
pub open spec fn peers<T: Ranked>(x: T) -> spec_fn(T) -> bool {
    |y: T| x.leq(&y) && y.leq(&x)
}

/// No value stands before one that ranks earlier.
pub open spec fn is_sorted<T: Ranked>(s: Seq<T>) -> bool {
    forall|i: int, j: int|
        #![trigger s[i], s[j]]
        0 <= i < j < s.len() ==> s[i].leq(&s[j])
}

/// `out` holds what `inp` holds, by rank, and values that share a rank stand
/// in it in the order in which they stood in `inp`.
pub open spec fn is_stable_sort<T: Ranked>(out: Seq<T>, inp: Seq<T>) -> bool {
    &&& is_sorted(out)
    &&& forall|x: T| #[trigger] out.filter(peers(x)) == inp.filter(peers(x))
    &&& out.to_multiset() == inp.to_multiset()
}

/// `inp` by rank, values that share one in the order in which they stood.
/// There is exactly one such sequence: [`lemma_stable_sort_is_unique`].
pub open spec fn sorted<T: Ranked>(inp: Seq<T>) -> Seq<T> {
    choose|out: Seq<T>| is_stable_sort(out, inp)
}

/// What is kept of a sequence is what is kept of its head and of the rest.
pub proof fn lemma_filter_first<T>(s: Seq<T>, keep: spec_fn(T) -> bool)
    requires
        s.len() > 0,
    ensures
        s.filter(keep) == if keep(s[0]) {
            seq![s[0]] + s.drop_first().filter(keep)
        } else {
            s.drop_first().filter(keep)
        },
{
    let one = seq![s[0]];
    assert(s =~= one + s.drop_first());
    Seq::filter_distributes_over_add(one, s.drop_first(), keep);
    reveal(Seq::filter);
    assert(one.drop_last() =~= Seq::empty());
    if keep(s[0]) {
        assert(one.filter(keep) =~= one);
    } else {
        lemma_filter_none(one, keep);
        assert(Seq::empty() + s.drop_first().filter(keep) =~= s.drop_first().filter(keep));
    }
}

/// The first value of a sorted sequence ranks no later than any value that
/// shares its rank with one of the sequence's.
proof fn lemma_first_is_least<T: Ranked>(s: Seq<T>, x: T)
    requires
        is_sorted(s),
        s.filter(peers(x)).len() > 0,
    ensures
        s.len() > 0,
        s[0].leq(&x),
{
    if forall|i: int| 0 <= i < s.len() ==> !#[trigger] peers(x)(s[i]) {
        lemma_filter_none(s, peers(x));
    }
    let j = choose|i: int| 0 <= i < s.len() && #[trigger] peers(x)(s[i]);
    if j > 0 {
        assert(s[0].leq(&s[j]));
        T::transitive(&s[0], &s[j], &x);
    }
}

proof fn lemma_same_classes<T: Ranked>(a: Seq<T>, b: Seq<T>)
    requires
        is_sorted(a),
        is_sorted(b),
        forall|x: T| #[trigger] a.filter(peers(x)) == b.filter(peers(x)),
    ensures
        a == b,
    decreases a.len(),
{
    if a.len() == 0 {
        if b.len() > 0 {
            T::total(&b[0], &b[0]);
            lemma_filter_first(b, peers(b[0]));
            lemma_filter_none(a, peers(b[0]));
            assert(a.filter(peers(b[0])) == b.filter(peers(b[0])));
        }
        assert(a =~= b);
    } else {
        let x = a[0];
        T::total(&x, &x);
        lemma_filter_first(a, peers(x));
        assert(a.filter(peers(x)) == b.filter(peers(x)));
        lemma_first_is_least(b, x);
        let y = b[0];
        T::total(&y, &y);
        lemma_filter_first(b, peers(y));
        assert(a.filter(peers(y)) == b.filter(peers(y)));
        lemma_first_is_least(a, y);
        lemma_filter_first(b, peers(x));
        assert(a.filter(peers(x))[0] == x);
        assert(b.filter(peers(x))[0] == y);
        let c = a.drop_first();
        let d = b.drop_first();
        assert forall|z: T| #[trigger] c.filter(peers(z)) == d.filter(peers(z)) by {
            lemma_filter_first(a, peers(z));
            lemma_filter_first(b, peers(z));
            assert(a.filter(peers(z)) == b.filter(peers(z)));
            if peers(z)(x) {
                assert((seq![x] + c.filter(peers(z))).drop_first() =~= c.filter(peers(z)));
                assert((seq![x] + d.filter(peers(z))).drop_first() =~= d.filter(peers(z)));
            }
        }
        lemma_same_classes(c, d);
        assert(a =~= seq![x] + c);
        assert(b =~= seq![x] + d);
    }
}

/// A stable sort has one outcome.
pub proof fn lemma_stable_sort_is_unique<T: Ranked>(out: Seq<T>, inp: Seq<T>)
    requires
        is_stable_sort(out, inp),
    ensures
        out == sorted(inp),
{
    let other = sorted(inp);
    assert forall|x: T| #[trigger] out.filter(peers(x)) == other.filter(peers(x)) by {
        assert(out.filter(peers(x)) == inp.filter(peers(x)));
        assert(other.filter(peers(x)) == inp.filter(peers(x)));
    }
    lemma_same_classes(out, other);
}

proof fn lemma_insert_filter<T: Ranked>(out: Seq<T>, p: int, item: T, x: T)
    requires
        0 <= p <= out.len(),
        forall|i: int| 0 <= i < p ==> !item.leq(&#[trigger] out[i]),
    ensures
        out.insert(p, item).filter(peers(x)) == seq![item].filter(peers(x)) + out.filter(peers(x)),
{
    let head = out.take(p);
    let tail = out.skip(p);
    let one = seq![item];
    assert(out =~= head + tail);
    assert(out.insert(p, item) =~= head + one + tail);
    Seq::filter_distributes_over_add(head + one, tail, peers(x));
    Seq::filter_distributes_over_add(head, one, peers(x));
    Seq::filter_distributes_over_add(head, tail, peers(x));
    if peers(x)(item) {
        assert forall|i: int| 0 <= i < head.len() implies !#[trigger] peers(x)(head[i]) by {
            assert(!item.leq(&out[i]));
            if peers(x)(head[i]) {
                T::transitive(&item, &x, &head[i]);
            }
        }
        lemma_filter_none(head, peers(x));
        assert(head.filter(peers(x)) + one.filter(peers(x)) + tail.filter(peers(x))
            =~= one.filter(peers(x)) + (head.filter(peers(x)) + tail.filter(peers(x))));
    } else {
        lemma_filter_none(one, peers(x));
        assert(head.filter(peers(x)) + one.filter(peers(x)) + tail.filter(peers(x))
            =~= one.filter(peers(x)) + (head.filter(peers(x)) + tail.filter(peers(x))));
    }
}

/// A filter that nothing passes leaves nothing.
pub proof fn lemma_filter_none<T>(s: Seq<T>, keep: spec_fn(T) -> bool)
    requires
        forall|i: int| 0 <= i < s.len() ==> !#[trigger] keep(s[i]),
    ensures
        s.filter(keep) == Seq::<T>::empty(),
    decreases s.len(),
{
    reveal(Seq::filter);
    if s.len() > 0 {
        lemma_filter_none(s.drop_last(), keep);
    }
}

/// A narrower filter after a wider one is the narrower one.
pub proof fn lemma_filter_within<T>(s: Seq<T>, wide: spec_fn(T) -> bool, narrow: spec_fn(T) -> bool)
    requires
        forall|x: T| #[trigger] narrow(x) ==> wide(x),
    ensures
        s.filter(wide).filter(narrow) == s.filter(narrow),
    decreases s.len(),
{
    reveal(Seq::filter);
    if s.len() > 0 {
        lemma_filter_within(s.drop_last(), wide, narrow);
        let x = s.last();
        let rest = s.drop_last().filter(wide);
        if wide(x) {
            assert(rest.push(x).drop_last() =~= rest);
        }
    }
}

/// Two filters that nothing passes together leave nothing.
pub proof fn lemma_filter_outside<T>(s: Seq<T>, one: spec_fn(T) -> bool, other: spec_fn(T) -> bool)
    requires
        forall|x: T| #[trigger] other(x) ==> !one(x),
    ensures
        s.filter(one).filter(other) == Seq::<T>::empty(),
{
    broadcast use Seq::lemma_filter_pred;

    lemma_filter_none(s.filter(one), other);
}

/// Sorting keeps values apart that were apart.
pub proof fn lemma_sorted_no_duplicates<T: Ranked>(out: Seq<T>, inp: Seq<T>)
    requires
        is_stable_sort(out, inp),
        inp.no_duplicates(),
    ensures
        out.no_duplicates(),
{
    inp.lemma_multiset_has_no_duplicates();
    out.lemma_multiset_has_no_duplicates_conv();
}

/// Sorting changes nothing about what is there.
pub proof fn lemma_sorted_contains<T: Ranked>(out: Seq<T>, inp: Seq<T>, x: T)
    requires
        is_stable_sort(out, inp),
    ensures
        out.contains(x) <==> inp.contains(x),
{
    out.to_multiset_ensures();
    inp.to_multiset_ensures();
    assert(out.to_multiset().count(x) > 0 <==> out.contains(x));
    assert(inp.to_multiset().count(x) > 0 <==> inp.contains(x));
}

/// There is a stable sort of everything.
pub proof fn lemma_sorted_exists<T: Ranked>(inp: Seq<T>)
    ensures
        is_stable_sort(sorted(inp), inp),
    decreases inp.len(),
{
    if inp.len() == 0 {
        assert(is_stable_sort(inp, inp));
    } else {
        let rest = inp.drop_first();
        lemma_sorted_exists(rest);
        let item = inp[0];
        let before = sorted(rest);
        let p = lemma_place(before, item);
        lemma_inserted(before, rest, p, item);
        assert(rest.insert(0, item) =~= inp);
        assert(is_stable_sort(before.insert(p, item), inp));
    }
}

/// The first place of a sorted sequence that a value may take.
proof fn lemma_place<T: Ranked>(s: Seq<T>, item: T) -> (p: int)
    ensures
        0 <= p <= s.len(),
        forall|i: int| 0 <= i < p ==> !item.leq(&#[trigger] s[i]),
        p < s.len() ==> item.leq(&s[p]),
    decreases s.len(),
{
    if s.len() == 0 || item.leq(&s[0]) {
        0
    } else {
        let q = lemma_place(s.drop_first(), item);
        assert forall|i: int| 0 <= i < q + 1 implies !item.leq(&#[trigger] s[i]) by {
            if i > 0 {
                assert(s.drop_first()[i - 1] == s[i]);
            }
        }
        q + 1
    }
}

/// A value put in its place before everything that ranks no earlier: the
/// outcome is the stable sort of the value and what was sorted before.
proof fn lemma_inserted<T: Ranked>(before: Seq<T>, rest: Seq<T>, p: int, item: T)
    requires
        is_stable_sort(before, rest),
        0 <= p <= before.len(),
        forall|i: int| 0 <= i < p ==> !item.leq(&#[trigger] before[i]),
        p < before.len() ==> item.leq(&before[p]),
    ensures
        is_stable_sort(before.insert(p, item), rest.insert(0, item)),
{
    let out = before.insert(p, item);
    let all = rest.insert(0, item);
    let one = seq![item];
    assert(all =~= one + rest);
    assert forall|x: T| #[trigger] out.filter(peers(x)) == all.filter(peers(x)) by {
        lemma_insert_filter(before, p, item, x);
        Seq::filter_distributes_over_add(one, rest, peers(x));
        assert(before.filter(peers(x)) == rest.filter(peers(x)));
    }
    assert(out.to_multiset() == all.to_multiset()) by {
        vstd::seq_lib::to_multiset_insert(before, p, item);
        vstd::seq_lib::to_multiset_insert(rest, 0, item);
    }
    assert forall|i: int, j: int|
        #![trigger out[i], out[j]]
        0 <= i < j < out.len() implies out[i].leq(&out[j]) by {
        if j == p {
            T::total(&item, &before[i]);
        } else if i == p {
            let k = j - 1;
            assert(out[j] == before[k]);
            if k > p {
                assert(before[p].leq(&before[k]));
                T::transitive(&item, &before[p], &before[k]);
            }
        } else {
            let a = if i < p { i } else { i - 1 };
            let b = if j < p { j } else { j - 1 };
            assert(before[a].leq(&before[b]));
        }
    }
}

/// Sorts by rank; values that share a rank keep their order.
pub fn sort<T: Ranked>(v: Vec<T>) -> (r: Vec<T>)
    ensures
        is_stable_sort(r@, v@),
        r@ == sorted(v@),
{
    let ghost inp = v@;
    let mut v = v;
    let mut out: Vec<T> = Vec::new();
    proof {
        reveal(Seq::filter);
        assert(inp.skip(inp.len() as int) =~= out@);
    }
    while v.len() > 0
        invariant
            v@ == inp.take(v@.len() as int),
            v@.len() <= inp.len(),
            is_stable_sort(out@, inp.skip(v@.len() as int)),
        decreases v@.len(),
    {
        let ghost n = v@.len() as int;
        let item = v.pop().unwrap();
        let mut p: usize = 0;
        while p < out.len() && !item.no_later(&out[p])
            invariant
                p <= out@.len(),
                forall|i: int| 0 <= i < p ==> !item.leq(&#[trigger] out@[i]),
            decreases out@.len() - p,
        {
            p += 1;
        }
        assert(p < out@.len() ==> item.leq(&out@[p as int]));
        proof {
            assert(inp.skip(n).insert(0, item) =~= inp.skip(n - 1));
            lemma_inserted(out@, inp.skip(n), p as int, item);
        }
        out.insert(p, item);
    }
    assert(inp.skip(0) =~= inp);
    proof {
        lemma_stable_sort_is_unique(out@, inp);
    }
    out
}

// ── Alphabetical order ─────────────────────────────────────────────────

/// Whether `a` comes no later than `b` in the order of their characters'
/// code points, a prefix first.
pub open spec fn alphabetic(a: Seq<char>, b: Seq<char>) -> bool
    decreases a.len(),
{
    if a.len() == 0 {
        true
    } else if b.len() == 0 {
        false
    } else if a[0] != b[0] {
        a[0] < b[0]
    } else {
        alphabetic(a.drop_first(), b.drop_first())
    }
}

pub proof fn lemma_alphabetic_total(a: Seq<char>, b: Seq<char>)
    ensures
        alphabetic(a, b) || alphabetic(b, a),
    decreases a.len(),
{
    if a.len() > 0 && b.len() > 0 && a[0] == b[0] {
        lemma_alphabetic_total(a.drop_first(), b.drop_first());
    }
}

pub proof fn lemma_alphabetic_transitive(a: Seq<char>, b: Seq<char>, c: Seq<char>)
    requires
        alphabetic(a, b),
        alphabetic(b, c),
    ensures
        alphabetic(a, c),
    decreases a.len(),
{
    if a.len() > 0 && b.len() > 0 && c.len() > 0 && a[0] == b[0] && b[0] == c[0] {
        lemma_alphabetic_transitive(a.drop_first(), b.drop_first(), c.drop_first());
    }
}

pub proof fn lemma_alphabetic_antisymmetric(a: Seq<char>, b: Seq<char>)
    requires
        alphabetic(a, b),
        alphabetic(b, a),
    ensures
        a == b,
    decreases a.len(),
{
    if a.len() > 0 && b.len() > 0 {
        assert(a[0] == b[0]);
        let c = a.drop_first();
        let d = b.drop_first();
        lemma_alphabetic_antisymmetric(c, d);
        assert(c.len() == a.len() - 1 && d.len() == b.len() - 1);
        assert forall|i: int| 0 <= i < a.len() implies a[i] == b[i] by {
            if i > 0 {
                assert(c[i - 1] == a[i] && d[i - 1] == b[i]);
            }
        }
    }
    assert(a =~= b);
}

/// Whether `a` comes no later than `b` alphabetically.
pub fn alphabetically(a: &str, b: &str) -> (r: bool)
    ensures
        r == alphabetic(a@, b@),
{
    let x = chars_of(a);
    let y = chars_of(b);
    let mut i: usize = 0;
    assert(x@.skip(0) =~= x@);
    assert(y@.skip(0) =~= y@);
    while i < x.len()
        invariant
            x@ == a@,
            y@ == b@,
            i <= x@.len(),
            i <= y@.len(),
            alphabetic(x@, y@) == alphabetic(x@.skip(i as int), y@.skip(i as int)),
        decreases x@.len() - i,
    {
        if i >= y.len() {
            return false;
        }
        if x[i] != y[i] {
            return x[i] < y[i];
        }
        assert(x@.skip(i as int).drop_first() =~= x@.skip(i + 1));
        assert(y@.skip(i as int).drop_first() =~= y@.skip(i + 1));
        i += 1;
    }
    true
}

impl Ranked for String {
    open spec fn leq(&self, other: &Self) -> bool {
        alphabetic(self@, other@)
    }

    proof fn total(a: &Self, b: &Self) {
        lemma_alphabetic_total(a@, b@);
    }

    proof fn transitive(a: &Self, b: &Self, c: &Self) {
        lemma_alphabetic_transitive(a@, b@, c@);
    }

    fn no_later(&self, other: &Self) -> (r: bool) {
        alphabetically(self.as_str(), other.as_str())
    }
}

/// One text comes no later than another exactly when it begins the other, or
/// has the smaller character where they first differ.
pub proof fn law_the_alphabet_decides_at_the_first_difference(a: Seq<char>, b: Seq<char>)
    ensures
        alphabetic(a, b) <==> exists|k: int|
            {
                &&& 0 <= k <= a.len()
                &&& k <= b.len()
                &&& #[trigger] a.take(k) == b.take(k)
                &&& k == a.len() || (k < b.len() && a[k] < b[k])
            },
    decreases a.len(),
{
    if a.len() == 0 {
        assert(a.take(0) =~= b.take(0));
    } else if b.len() > 0 {
        if a[0] == b[0] {
            let c = a.drop_first();
            let d = b.drop_first();
            law_the_alphabet_decides_at_the_first_difference(c, d);
            if alphabetic(c, d) {
                let k = choose|k: int|
                    {
                        &&& 0 <= k <= c.len()
                        &&& k <= d.len()
                        &&& #[trigger] c.take(k) == d.take(k)
                        &&& k == c.len() || (k < d.len() && c[k] < d[k])
                    };
                assert(a.take(k + 1) =~= seq![a[0]] + c.take(k));
                assert(b.take(k + 1) =~= seq![b[0]] + d.take(k));
            }
            if exists|k: int|
                {
                    &&& 0 <= k <= a.len()
                    &&& k <= b.len()
                    &&& #[trigger] a.take(k) == b.take(k)
                    &&& k == a.len() || (k < b.len() && a[k] < b[k])
                } {
                let k = choose|k: int|
                    {
                        &&& 0 <= k <= a.len()
                        &&& k <= b.len()
                        &&& #[trigger] a.take(k) == b.take(k)
                        &&& k == a.len() || (k < b.len() && a[k] < b[k])
                    };
                assert(k > 0);
                assert(c.take(k - 1) =~= a.take(k).drop_first());
                assert(d.take(k - 1) =~= b.take(k).drop_first());
            }
        } else {
            assert(a.take(0) =~= b.take(0));
            if exists|k: int|
                {
                    &&& 0 <= k <= a.len()
                    &&& k <= b.len()
                    &&& #[trigger] a.take(k) == b.take(k)
                    &&& k == a.len() || (k < b.len() && a[k] < b[k])
                } {
                let k = choose|k: int|
                    {
                        &&& 0 <= k <= a.len()
                        &&& k <= b.len()
                        &&& #[trigger] a.take(k) == b.take(k)
                        &&& k == a.len() || (k < b.len() && a[k] < b[k])
                    };
                if k > 0 {
                    assert(a.take(k)[0] == b.take(k)[0]);
                }
            }
        }
    }
}

} // verus!
