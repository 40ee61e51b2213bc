//! Total orders: a trait for values that can be compared, and a stable sort whose result is stated
//! exactly.
use std::cmp::Ordering;
use vstd::prelude::*;

use crate::text::{
    less, lemma_lex_irreflexive, lemma_lex_total, lemma_lex_transitive, lex_lt, same,
};

verus! {

/// Values with a total order; `before` is the strict order, and values of which neither comes before
/// the other are alike.
pub trait TotalOrder: Sized {
    spec fn before(&self, other: &Self) -> bool;

    proof fn law_irreflexive(a: &Self)
        ensures
            !a.before(a),
    ;

    proof fn law_transitive(a: &Self, b: &Self, c: &Self)
        ensures
            a.before(b) && b.before(c) ==> a.before(c),
            !a.before(b) && !b.before(c) ==> !a.before(c),
    ;

    /// How `self` stands to `other`.
    fn compare(&self, other: &Self) -> (r: Ordering)
        ensures
            r == Ordering::Less <==> self.before(other),
            r == Ordering::Greater <==> other.before(self),
    ;
}

impl TotalOrder for i64 {
    open spec fn before(&self, other: &Self) -> bool {
        *self < *other
    }

    proof fn law_irreflexive(a: &Self) {
    }

    proof fn law_transitive(a: &Self, b: &Self, c: &Self) {
    }

    fn compare(&self, other: &Self) -> (r: Ordering) {
        if *self < *other {
            Ordering::Less
        } else if *self == *other {
            Ordering::Equal
        } else {
            Ordering::Greater
        }
    }
}

impl TotalOrder for i8 {
    open spec fn before(&self, other: &Self) -> bool {
        *self < *other
    }

    proof fn law_irreflexive(a: &Self) {
    }

    proof fn law_transitive(a: &Self, b: &Self, c: &Self) {
    }

    fn compare(&self, other: &Self) -> (r: Ordering) {
        if *self < *other {
            Ordering::Less
        } else if *self == *other {
            Ordering::Equal
        } else {
            Ordering::Greater
        }
    }
}

impl TotalOrder for u64 {
    open spec fn before(&self, other: &Self) -> bool {
        *self < *other
    }

    proof fn law_irreflexive(a: &Self) {
    }

    proof fn law_transitive(a: &Self, b: &Self, c: &Self) {
    }

    fn compare(&self, other: &Self) -> (r: Ordering) {
        if *self < *other {
            Ordering::Less
        } else if *self == *other {
            Ordering::Equal
        } else {
            Ordering::Greater
        }
    }
}

impl TotalOrder for String {
    open spec fn before(&self, other: &Self) -> bool {
        lex_lt(self@, other@)
    }

    proof fn law_irreflexive(a: &Self) {
        lemma_lex_irreflexive(a@);
    }

    proof fn law_transitive(a: &Self, b: &Self, c: &Self) {
        lemma_lex_total(a@, b@);
        lemma_lex_total(b@, c@);
        lemma_lex_total(a@, c@);
        if lex_lt(a@, b@) && lex_lt(b@, c@) {
            lemma_lex_transitive(a@, b@, c@);
        }
        if lex_lt(b@, a@) && lex_lt(a@, c@) {
            lemma_lex_transitive(b@, a@, c@);
        }
    }

    fn compare(&self, other: &Self) -> (r: Ordering) {
        proof {
            lemma_lex_total(self@, other@);
            lemma_lex_irreflexive(self@);
        }
        if same(self.as_str(), other.as_str()) {
            Ordering::Equal
        } else if less(self.as_str(), other.as_str()) {
            Ordering::Less
        } else {
            Ordering::Greater
        }
    }
}

/// A relation by which any two values can be ordered, several of them perhaps alike.
pub open spec fn is_total_preorder<T>(leq: spec_fn(T, T) -> bool) -> bool {
    &&& forall|a: T, b: T| #[trigger] leq(a, b) || leq(b, a)
    &&& forall|a: T, b: T, c: T|
        #![trigger leq(a, b), leq(b, c)]
        leq(a, b) && leq(b, c) ==> leq(a, c)
}

/// `s` with `x` put behind the last element that is not greater than it, for a sorted `s`.
pub open spec fn insert_sorted<T>(s: Seq<T>, x: T, leq: spec_fn(T, T) -> bool) -> Seq<T>
    decreases s.len(),
{
    if s.len() == 0 || leq(s.last(), x) {
        s.push(x)
    } else {
        insert_sorted(s.drop_last(), x, leq).push(s.last())
    }
}

/// `s` in ascending order, elements that are alike in the order in which they stand in `s`.
pub open spec fn stable_sorted<T>(s: Seq<T>, leq: spec_fn(T, T) -> bool) -> Seq<T>
    decreases s.len(),
{
    if s.len() == 0 {
        s
    } else {
        insert_sorted(stable_sorted(s.drop_last(), leq), s.last(), leq)
    }
}

/// Whether no element of `s` is followed by a smaller one.
pub open spec fn is_sorted_by<T>(s: Seq<T>, leq: spec_fn(T, T) -> bool) -> bool {
    forall|i: int, j: int| 0 <= i <= j < s.len() ==> #[trigger] leq(s[i], s[j])
}

/// Whether `m` is not smaller than any element of `s`.
spec fn is_bound<T>(s: Seq<T>, m: T, leq: spec_fn(T, T) -> bool) -> bool {
    forall|i: int| 0 <= i < s.len() ==> #[trigger] leq(s[i], m)
}

proof fn lemma_insert_sorted<T>(s: Seq<T>, x: T, leq: spec_fn(T, T) -> bool)
    requires
        is_total_preorder(leq),
        is_sorted_by(s, leq),
    ensures
        is_sorted_by(insert_sorted(s, x, leq), leq),
        insert_sorted(s, x, leq).len() == s.len() + 1,
        insert_sorted(s, x, leq).to_multiset() =~= s.to_multiset().insert(x),
        forall|m: T|
            #![trigger is_bound(insert_sorted(s, x, leq), m, leq)]
            is_bound(s, m, leq) && leq(x, m) ==> is_bound(insert_sorted(s, x, leq), m, leq),
    decreases s.len(),
{
    broadcast use vstd::seq_lib::group_to_multiset_ensures;

    let r = insert_sorted(s, x, leq);
    if s.len() == 0 {
        assert(leq(x, x));
    } else if leq(s.last(), x) {
        assert forall|i: int, j: int| 0 <= i <= j < r.len() implies #[trigger] leq(r[i], r[j]) by {
            if j == s.len() {
                if i < s.len() {
                    assert(leq(s[i], s[s.len() - 1]));
                    assert(leq(s[i], x));
                } else {
                    assert(leq(x, x));
                }
            } else {
                assert(leq(s[i], s[j]));
            }
        }
    } else {
        let t = s.drop_last();
        let last = s.last();
        assert forall|i: int, j: int| 0 <= i <= j < t.len() implies #[trigger] leq(t[i], t[j]) by {
            assert(leq(s[i], s[j]));
        }
        lemma_insert_sorted(t, x, leq);
        let q = insert_sorted(t, x, leq);
        assert(leq(x, last));
        assert(is_bound(t, last, leq)) by {
            assert forall|i: int| 0 <= i < t.len() implies #[trigger] leq(t[i], last) by {
                assert(leq(s[i], s[s.len() - 1]));
            }
        }
        assert(is_bound(q, last, leq));
        assert forall|i: int, j: int| 0 <= i <= j < r.len() implies #[trigger] leq(r[i], r[j]) by {
            if j == q.len() {
                if i < q.len() {
                    assert(leq(q[i], last));
                } else {
                    assert(leq(last, last));
                }
            } else {
                assert(leq(q[i], q[j]));
            }
        }
        assert(s =~= t.push(last));
        assert(r.to_multiset() =~= q.to_multiset().insert(last));
        assert(s.to_multiset() =~= t.to_multiset().insert(last));
        assert forall|m: T|
            #![trigger is_bound(r, m, leq)]
            is_bound(s, m, leq) && leq(x, m) implies is_bound(r, m, leq) by {
            assert forall|i: int| 0 <= i < t.len() implies #[trigger] leq(t[i], m) by {
                assert(leq(s[i], m));
            }
            assert(is_bound(q, m, leq));
            assert forall|i: int| 0 <= i < r.len() implies #[trigger] leq(r[i], m) by {
                if i < q.len() {
                    assert(leq(q[i], m));
                } else {
                    assert(leq(s[s.len() - 1], m));
                }
            }
        }
    }
}

/// Sorting puts the elements in ascending order and neither loses, adds nor repeats one.
pub proof fn law_stable_sorted<T>(s: Seq<T>, leq: spec_fn(T, T) -> bool)
    requires
        is_total_preorder(leq),
    ensures
        is_sorted_by(stable_sorted(s, leq), leq),
        stable_sorted(s, leq).to_multiset() == s.to_multiset(),
        stable_sorted(s, leq).len() == s.len(),
    decreases s.len(),
{
    broadcast use vstd::seq_lib::group_to_multiset_ensures;

    if s.len() > 0 {
        law_stable_sorted(s.drop_last(), leq);
        lemma_insert_sorted(stable_sorted(s.drop_last(), leq), s.last(), leq);
        assert(s =~= s.drop_last().push(s.last()));
    }
}

/// Two sorted sequences as one, elements of `a` before the elements of `b` that are alike.
spec fn merged<T>(a: Seq<T>, b: Seq<T>, leq: spec_fn(T, T) -> bool) -> Seq<T>
    decreases a.len() + b.len(),
{
    if b.len() == 0 {
        a
    } else if a.len() == 0 {
        b
    } else if leq(a.last(), b.last()) {
        merged(a, b.drop_last(), leq).push(b.last())
    } else {
        merged(a.drop_last(), b, leq).push(a.last())
    }
}

proof fn lemma_sorted_drop_last<T>(s: Seq<T>, leq: spec_fn(T, T) -> bool)
    requires
        is_sorted_by(s, leq),
        s.len() > 0,
    ensures
        is_sorted_by(s.drop_last(), leq),
        is_bound(s, s.last(), leq),
{
    assert forall|i: int, j: int| 0 <= i <= j < s.drop_last().len() implies #[trigger] leq(
        s.drop_last()[i],
        s.drop_last()[j],
    ) by {
        assert(leq(s[i], s[j]));
    }
    assert forall|i: int| 0 <= i < s.len() implies #[trigger] leq(s[i], s.last()) by {
        assert(leq(s[i], s[s.len() - 1]));
    }
}

proof fn lemma_merged_insert<T>(a: Seq<T>, b: Seq<T>, x: T, leq: spec_fn(T, T) -> bool)
    requires
        is_total_preorder(leq),
        is_sorted_by(a, leq),
        is_sorted_by(b, leq),
    ensures
        merged(a, insert_sorted(b, x, leq), leq) == insert_sorted(merged(a, b, leq), x, leq),
    decreases a.len() + b.len(),
{
    let m = merged(a, b, leq);
    let bx = insert_sorted(b, x, leq);
    if a.len() > 0 {
        lemma_sorted_drop_last(a, leq);
    }
    if b.len() > 0 {
        lemma_sorted_drop_last(b, leq);
    }
    if b.len() == 0 || leq(b.last(), x) {
        assert(bx == b.push(x));
        assert(bx.drop_last() =~= b);
        assert(bx.last() == x);
        if a.len() == 0 {
            assert(m =~= b);
        } else if leq(a.last(), x) {
            assert(merged(a, bx, leq) == m.push(x));
            assert(m.len() > 0 && leq(m.last(), x));
        } else {
            lemma_merged_insert(a.drop_last(), b, x, leq);
            if b.len() == 0 {
                assert(m == a);
                assert(merged(a.drop_last(), b, leq) == a.drop_last());
            } else {
                assert(!leq(a.last(), b.last()));
                assert(m == merged(a.drop_last(), b, leq).push(a.last()));
                assert(m.drop_last() =~= merged(a.drop_last(), b, leq));
            }
        }
    } else {
        let b1 = b.drop_last();
        assert(bx == insert_sorted(b1, x, leq).push(b.last()));
        assert(bx.drop_last() =~= insert_sorted(b1, x, leq));
        if a.len() == 0 {
            assert(m == b);
        } else if leq(a.last(), b.last()) {
            lemma_merged_insert(a, b1, x, leq);
            assert(m == merged(a, b1, leq).push(b.last()));
            assert(m.drop_last() =~= merged(a, b1, leq));
        } else {
            lemma_merged_insert(a.drop_last(), b, x, leq);
            assert(m == merged(a.drop_last(), b, leq).push(a.last()));
            assert(m.drop_last() =~= merged(a.drop_last(), b, leq));
            assert(leq(b.last(), a.last()));
            assert(!leq(a.last(), x)) by {
                if leq(a.last(), x) {
                    assert(leq(b.last(), x));
                }
            }
        }
    }
}

proof fn lemma_merged_halves<T>(a: Seq<T>, b: Seq<T>, leq: spec_fn(T, T) -> bool)
    requires
        is_total_preorder(leq),
    ensures
        stable_sorted(a + b, leq) == merged(stable_sorted(a, leq), stable_sorted(b, leq), leq),
    decreases b.len(),
{
    if b.len() == 0 {
        assert(a + b =~= a);
    } else {
        assert((a + b).drop_last() =~= a + b.drop_last());
        assert((a + b).last() == b.last());
        lemma_merged_halves(a, b.drop_last(), leq);
        law_stable_sorted(a, leq);
        law_stable_sorted(b.drop_last(), leq);
        lemma_merged_insert(
            stable_sorted(a, leq),
            stable_sorted(b.drop_last(), leq),
            b.last(),
            leq,
        );
    }
}

/// The elements of `v` from the last to the first.
fn reversed<T>(v: Vec<T>) -> (r: Vec<T>)
    ensures
        r@ == v@.reverse(),
{
    let ghost all = v@;
    let mut v = v;
    let mut r: Vec<T> = Vec::new();
    while v.len() > 0
        invariant
            all.reverse() =~= r@ + v@.reverse(),
        decreases v@.len(),
    {
        if let Some(x) = v.pop() {
            r.push(x);
        }
    }
    r
}

/// Merges two sorted vectors; of elements that are alike those of `a` come first.
fn merge<T, F: Fn(&T, &T) -> bool>(
    a: Vec<T>,
    b: Vec<T>,
    f: &F,
    Ghost(leq): Ghost<spec_fn(T, T) -> bool>,
) -> (r: Vec<T>)
    requires
        forall|x: &T, y: &T| call_requires(*f, (x, y)),
        forall|x: &T, y: &T, o: bool| call_ensures(*f, (x, y), o) ==> o == leq(*x, *y),
    ensures
        r@ == merged(a@, b@, leq),
{
    let ghost whole = merged(a@, b@, leq);
    let mut a = a;
    let mut b = b;
    let mut out: Vec<T> = Vec::new();
    while a.len() > 0 && b.len() > 0
        invariant
            forall|x: &T, y: &T| call_requires(*f, (x, y)),
            forall|x: &T, y: &T, o: bool| call_ensures(*f, (x, y), o) ==> o == leq(*x, *y),
            whole =~= merged(a@, b@, leq) + out@.reverse(),
        decreases a@.len() + b@.len(),
    {
        let ghost a0 = a@;
        let ghost b0 = b@;
        let ghost out0 = out@;
        let from_b: bool = f(&a[a.len() - 1], &b[b.len() - 1]);
        if from_b {
            if let Some(x) = b.pop() {
                assert(b@ =~= b0.drop_last());
                out.push(x);
            }
        } else {
            if let Some(x) = a.pop() {
                assert(a@ =~= a0.drop_last());
                out.push(x);
            }
        }
        assert(out@.reverse() =~= seq![out@.last()] + out0.reverse());
        assert(merged(a0, b0, leq) + out0.reverse() =~= merged(a@, b@, leq) + out@.reverse());
    }
    let mut r: Vec<T> = if b.len() == 0 {
        a
    } else {
        b
    };
    let mut tail: Vec<T> = reversed(out);
    r.append(&mut tail);
    r
}

/// Sorts `v` in ascending order; elements that are alike keep their order.
pub(crate) fn sort_stable<T, F: Fn(&T, &T) -> bool>(
    v: Vec<T>,
    f: &F,
    Ghost(leq): Ghost<spec_fn(T, T) -> bool>,
) -> (r: Vec<T>)
    requires
        is_total_preorder(leq),
        forall|x: &T, y: &T| call_requires(*f, (x, y)),
        forall|x: &T, y: &T, o: bool| call_ensures(*f, (x, y), o) ==> o == leq(*x, *y),
    ensures
        r@ == stable_sorted(v@, leq),
    decreases v@.len(),
{
    if v.len() <= 1 {
        proof {
            reveal_with_fuel(stable_sorted, 2);
            if v@.len() == 1 {
                assert(v@.drop_last() =~= Seq::<T>::empty());
                assert(Seq::<T>::empty().push(v@[0]) =~= v@);
            }
        }
        return v;
    }
    let ghost whole = v@;
    let mut front = v;
    let mid: usize = front.len() / 2;
    let back: Vec<T> = front.split_off(mid);
    proof {
        assert(whole =~= front@ + back@);
        lemma_merged_halves(front@, back@, leq);
    }
    let a: Vec<T> = sort_stable(front, f, Ghost(leq));
    let b: Vec<T> = sort_stable(back, f, Ghost(leq));
    merge(a, b, f, Ghost(leq))
}

/// Sorting keeps the order of alike elements: those of any one class stand in the sorted sequence as
/// they stood before.
pub proof fn law_sort_is_stable<T>(s: Seq<T>, leq: spec_fn(T, T) -> bool, x: T)
    requires
        is_total_preorder(leq),
    ensures
        stable_sorted(s, leq).filter(|y: T| leq(x, y) && leq(y, x)) == s.filter(
            |y: T| leq(x, y) && leq(y, x),
        ),
    decreases s.len(),
{
    let alike = |y: T| leq(x, y) && leq(y, x);
    if s.len() > 0 {
        law_sort_is_stable(s.drop_last(), leq, x);
        law_stable_sorted(s.drop_last(), leq);
        lemma_insert_keeps_class(stable_sorted(s.drop_last(), leq), s.last(), leq, x);
        assert(s =~= s.drop_last().push(s.last()));
        s.drop_last().lemma_filter_push(s.last(), alike);
        stable_sorted(s.drop_last(), leq).lemma_filter_push(s.last(), alike);
    }
}

proof fn lemma_insert_keeps_class<T>(s: Seq<T>, e: T, leq: spec_fn(T, T) -> bool, x: T)
    requires
        is_total_preorder(leq),
        is_sorted_by(s, leq),
    ensures
        insert_sorted(s, e, leq).filter(|y: T| leq(x, y) && leq(y, x)) == s.push(e).filter(
            |y: T| leq(x, y) && leq(y, x),
        ),
    decreases s.len(),
{
    let alike = |y: T| leq(x, y) && leq(y, x);
    if s.len() > 0 && !leq(s.last(), e) {
        let t = s.drop_last();
        let last = s.last();
        lemma_sorted_drop_last(s, leq);
        lemma_insert_keeps_class(t, e, leq, x);
        insert_sorted(t, e, leq).lemma_filter_push(last, alike);
        t.lemma_filter_push(e, alike);
        s.lemma_filter_push(e, alike);
        t.lemma_filter_push(last, alike);
        assert(s =~= t.push(last));
        if alike(last) && alike(e) {
            assert(leq(last, x) && leq(x, e));
            assert(leq(last, e));
        }
    }
}

/// Sorting values by what they stand for sorts what they stand for.
pub proof fn lemma_sorted_map<T, U>(
    s: Seq<T>,
    f: spec_fn(T) -> U,
    leq: spec_fn(T, T) -> bool,
    leq_of: spec_fn(U, U) -> bool,
)
    requires
        forall|a: T, b: T| #[trigger] leq(a, b) == leq_of(f(a), f(b)),
    ensures
        stable_sorted(s, leq).map_values(f) == stable_sorted(s.map_values(f), leq_of),
    decreases s.len(),
{
    if s.len() == 0 {
        assert(s.map_values(f) =~= Seq::<U>::empty());
        assert(stable_sorted(s, leq).map_values(f) =~= Seq::<U>::empty());
    } else {
        lemma_sorted_map(s.drop_last(), f, leq, leq_of);
        assert(s.map_values(f).drop_last() =~= s.drop_last().map_values(f));
        lemma_insert_map(stable_sorted(s.drop_last(), leq), s.last(), f, leq, leq_of);
    }
}

proof fn lemma_insert_map<T, U>(
    s: Seq<T>,
    x: T,
    f: spec_fn(T) -> U,
    leq: spec_fn(T, T) -> bool,
    leq_of: spec_fn(U, U) -> bool,
)
    requires
        forall|a: T, b: T| #[trigger] leq(a, b) == leq_of(f(a), f(b)),
    ensures
        insert_sorted(s, x, leq).map_values(f) == insert_sorted(s.map_values(f), f(x), leq_of),
    decreases s.len(),
{
    if s.len() == 0 || leq(s.last(), x) {
        assert(s.push(x).map_values(f) =~= s.map_values(f).push(f(x)));
    } else {
        lemma_insert_map(s.drop_last(), x, f, leq, leq_of);
        assert(s.map_values(f).drop_last() =~= s.drop_last().map_values(f));
        let q = insert_sorted(s.drop_last(), x, leq);
        assert(q.push(s.last()).map_values(f) =~= q.map_values(f).push(f(s.last())));
    }
}

}
