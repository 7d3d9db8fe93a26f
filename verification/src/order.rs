//! Lexicographic order of strings and a verified stable merge sort.
use vstd::prelude::*;
use vstd::multiset::Multiset;
use vstd::seq_lib::group_to_multiset_ensures;
use vstd::seq_lib::lemma_multiset_commutative;
use vstd::seq_lib::to_multiset_build;

use crate::text::chars_of;

verus! {

/// Strict lexicographic order over characters: the order of `String`'s `Ord`
/// (UTF-8 byte order equals code point order).
pub open spec fn seq_lt(a: Seq<char>, b: Seq<char>) -> bool
    decreases a.len(),
{
    if b.len() == 0 {
        false
    } else if a.len() == 0 {
        true
    } else if a[0] != b[0] {
        a[0] < b[0]
    } else {
        seq_lt(a.drop_first(), b.drop_first())
    }
}

pub open spec fn seq_le(a: Seq<char>, b: Seq<char>) -> bool {
    seq_lt(a, b) || a == b
}

pub proof fn lemma_seq_lt_irrefl(a: Seq<char>)
    ensures
        !seq_lt(a, a),
    decreases a.len(),
{
    if a.len() > 0 {
        lemma_seq_lt_irrefl(a.drop_first());
    }
}

pub proof fn lemma_seq_lt_trichotomy(a: Seq<char>, b: Seq<char>)
    ensures
        seq_lt(a, b) || seq_lt(b, a) || a == b,
        !(seq_lt(a, b) && seq_lt(b, a)),
    decreases a.len(),
{
    if a.len() > 0 && b.len() > 0 && a[0] == b[0] {
        lemma_seq_lt_trichotomy(a.drop_first(), b.drop_first());
        if a.drop_first() == b.drop_first() {
            assert(a =~= seq![a[0]] + a.drop_first());
            assert(b =~= seq![b[0]] + b.drop_first());
        }
    } else if a.len() == 0 && b.len() == 0 {
        assert(a =~= b);
    }
}

pub proof fn lemma_seq_lt_trans(a: Seq<char>, b: Seq<char>, c: Seq<char>)
    requires
        seq_lt(a, b),
        seq_lt(b, c),
    ensures
        seq_lt(a, c),
    decreases a.len(),
{
    if a.len() > 0 && b.len() > 0 && c.len() > 0 && a[0] == b[0] && b[0] == c[0] {
        lemma_seq_lt_trans(a.drop_first(), b.drop_first(), c.drop_first());
    }
}

pub proof fn lemma_seq_le_total(a: Seq<char>, b: Seq<char>)
    ensures
        seq_le(a, b) || seq_le(b, a),
{
    lemma_seq_lt_trichotomy(a, b);
}

pub proof fn lemma_seq_le_trans(a: Seq<char>, b: Seq<char>, c: Seq<char>)
    requires
        seq_le(a, b),
        seq_le(b, c),
    ensures
        seq_le(a, c),
{
    if seq_lt(a, b) && seq_lt(b, c) {
        lemma_seq_lt_trans(a, b, c);
    }
}

/// Three-way comparison: negative, zero or positive as `a` is before, equal to
/// or after `b`.
pub fn compare_vec(a: &Vec<char>, b: &Vec<char>) -> (r: i8)
    ensures
        r < 0 <==> seq_lt(a@, b@),
        r == 0 <==> a@ == b@,
        r > 0 <==> seq_lt(b@, a@),
{
    proof {
        lemma_seq_lt_trichotomy(a@, b@);
        lemma_seq_lt_irrefl(a@);
    }
    let mut i: usize = 0;
    assert(a@.skip(0) =~= a@);
    assert(b@.skip(0) =~= b@);
    while i < a.len() && i < b.len()
        invariant
            i <= a.len(),
            i <= b.len(),
            a@.take(i as int) == b@.take(i as int),
            seq_lt(a@, b@) == seq_lt(a@.skip(i as int), b@.skip(i as int)),
            seq_lt(b@, a@) == seq_lt(b@.skip(i as int), a@.skip(i as int)),
        decreases a.len() - i,
    {
        assert(a@.skip(i as int).drop_first() =~= a@.skip(i + 1));
        assert(b@.skip(i as int).drop_first() =~= b@.skip(i + 1));
        if a[i] != b[i] {
            if a[i] < b[i] {
                return -1;
            } else {
                return 1;
            }
        }
        i = i + 1;
        assert(a@.take(i as int) =~= a@.take(i - 1).push(a@[i - 1]));
        assert(b@.take(i as int) =~= b@.take(i - 1).push(b@[i - 1]));
    }
    if a.len() == b.len() {
        assert(a@ =~= a@.take(i as int));
        assert(b@ =~= b@.take(i as int));
        0
    } else if a.len() < b.len() {
        -1
    } else {
        1
    }
}

pub fn compare_str(a: &str, b: &str) -> (r: i8)
    ensures
        r < 0 <==> seq_lt(a@, b@),
        r == 0 <==> a@ == b@,
        r > 0 <==> seq_lt(b@, a@),
{
    compare_vec(&chars_of(a), &chars_of(b))
}

/// A total preorder used to sort values of a type.
pub trait SortKey: Sized {
    spec fn key_le(self, other: Self) -> bool;

    proof fn lemma_key_le_total(a: Self, b: Self)
        ensures
            a.key_le(b) || b.key_le(a),
    ;

    proof fn lemma_key_le_trans(a: Self, b: Self, c: Self)
        requires
            a.key_le(b),
            b.key_le(c),
        ensures
            a.key_le(c),
    ;

    fn key_le_exec(&self, other: &Self) -> (r: bool)
        ensures
            r == self.key_le(*other),
    ;
}

pub open spec fn sorted_by_key<T: SortKey>(s: Seq<T>) -> bool {
    forall|i: int, j: int| 0 <= i < j < s.len() ==> (#[trigger] s[i]).key_le(#[trigger] s[j])
}

spec fn descending_by_key<T: SortKey>(s: Seq<T>) -> bool {
    forall|i: int, j: int| 0 <= i < j < s.len() ==> (#[trigger] s[j]).key_le(#[trigger] s[i])
}

/// The items whose keys are equivalent to that of `x`: each orders before
/// or with the other.
pub open spec fn same_key<T: SortKey>(x: T) -> spec_fn(T) -> bool {
    |y: T| y.key_le(x) && x.key_le(y)
}

/// `r` keeps the items of `v` with equivalent keys in the order they have
/// in `v`.
pub open spec fn keeps_ties<T: SortKey>(r: Seq<T>, v: Seq<T>) -> bool {
    forall|x: T| #[trigger] r.filter(same_key(x)) == v.filter(same_key(x))
}

/// A sorted sequence is fixed by the order of its items within each run of
/// equivalent keys: two sorted sequences that agree there are equal.
pub proof fn lemma_ties_determine<T: SortKey>(r1: Seq<T>, r2: Seq<T>)
    requires
        sorted_by_key(r1),
        sorted_by_key(r2),
        keeps_ties(r1, r2),
    ensures
        r1 == r2,
    decreases r1.len() + r2.len(),
{
    broadcast use vstd::seq_lib::group_filter_ensures;

    if r1.len() == 0 && r2.len() == 0 {
        assert(r1 =~= r2);
    } else if r1.len() == 0 || r2.len() == 0 {
        let y = if r1.len() == 0 { r2[0] } else { r1[0] };
        T::lemma_key_le_total(y, y);
        let p = same_key(y);
        assert(p(y));
        reveal(Seq::filter);
        assert(r1.filter(p) == r2.filter(p));
        if r1.len() == 0 {
            r2.lemma_filter_contains(p, 0);
            assert(r2.filter(p).len() > 0);
        } else {
            r1.lemma_filter_contains(p, 0);
            assert(r1.filter(p).len() > 0);
        }
    } else {
        let x1 = r1[0];
        let x2 = r2[0];
        let t1 = r1.drop_first();
        let t2 = r2.drop_first();
        assert(r1 =~= seq![x1] + t1);
        assert(r2 =~= seq![x2] + t2);
        T::lemma_key_le_total(x1, x1);
        T::lemma_key_le_total(x2, x2);
        let p1 = same_key(x1);
        let p2 = same_key(x2);
        assert(r1.filter(p1) == r2.filter(p1));
        assert(r1.filter(p2) == r2.filter(p2));
        r1.lemma_filter_contains(p1, 0);
        r2.lemma_filter_contains(p2, 0);
        r2.lemma_filter_contains_rev(p1, x1);
        r1.lemma_filter_contains_rev(p2, x2);
        let j2 = choose|j: int| 0 <= j < r2.len() && r2[j] == x1;
        let j1 = choose|j: int| 0 <= j < r1.len() && r1[j] == x2;
        if j2 > 0 {
            assert(r2[0].key_le(r2[j2]));
        }
        if j1 > 0 {
            assert(r1[0].key_le(r1[j1]));
        }
        assert(p1(x2));
        t1.lemma_filter_prepend(x1, p1);
        t2.lemma_filter_prepend(x2, p1);
        assert(r1.filter(p1)[0] == x1);
        assert(r2.filter(p1)[0] == x2);
        assert(x1 == x2);
        assert forall|x: T| #[trigger] t1.filter(same_key(x)) == t2.filter(same_key(x)) by {
            let q = same_key(x);
            t1.lemma_filter_prepend(x1, q);
            t2.lemma_filter_prepend(x2, q);
            assert(r1.filter(q) == r2.filter(q));
            let pre: Seq<T> = if q(x1) { seq![x1] } else { Seq::empty() };
            assert(t1.filter(q) =~= r1.filter(q).subrange(pre.len() as int, r1.filter(q).len() as int));
            assert(t2.filter(q) =~= r2.filter(q).subrange(pre.len() as int, r2.filter(q).len() as int));
        }
        assert(sorted_by_key(t1)) by {
            assert forall|i: int, j: int| 0 <= i < j < t1.len() implies (#[trigger] t1[i]).key_le(#[trigger] t1[j]) by {
                assert(t1[i] == r1[i + 1] && t1[j] == r1[j + 1]);
            }
        }
        assert(sorted_by_key(t2)) by {
            assert forall|i: int, j: int| 0 <= i < j < t2.len() implies (#[trigger] t2[i]).key_le(#[trigger] t2[j]) by {
                assert(t2[i] == r2[i + 1] && t2[j] == r2[j + 1]);
            }
        }
        lemma_ties_determine(t1, t2);
    }
}

proof fn lemma_sorted_last<T: SortKey>(s: Seq<T>, i: int)
    requires
        sorted_by_key(s),
        0 <= i < s.len(),
    ensures
        s[i].key_le(s.last()),
{
    if i < s.len() - 1 {
        assert(s[i].key_le(s[s.len() - 1]));
    } else {
        T::lemma_key_le_total(s[i], s[i]);
    }
}

fn merge<T: SortKey>(a: Vec<T>, b: Vec<T>) -> (r: Vec<T>)
    requires
        sorted_by_key(a@),
        sorted_by_key(b@),
    ensures
        sorted_by_key(r@),
        r@.to_multiset() == a@.to_multiset().add(b@.to_multiset()),
        r@.len() == a@.len() + b@.len(),
        forall|x: T| #[trigger] r@.filter(same_key(x)) == a@.filter(same_key(x)) + b@.filter(
            same_key(x),
        ),
{
    broadcast use group_to_multiset_ensures, vstd::multiset::group_multiset_axioms;

    let ghost total = a@.to_multiset().add(b@.to_multiset());
    let ghost total_len = a@.len() + b@.len();
    let ghost a0 = a@;
    let ghost b0 = b@;
    let ghost mut tail: Seq<T> = Seq::empty();
    let mut a = a;
    let mut b = b;
    let mut rev: Vec<T> = Vec::new();
    while a.len() > 0 || b.len() > 0
        invariant
            sorted_by_key(a@),
            sorted_by_key(b@),
            descending_by_key(rev@),
            forall|i: int, k: int|
                0 <= i < a@.len() && 0 <= k < rev@.len() ==> (#[trigger] a@[i]).key_le(
                    #[trigger] rev@[k],
                ),
            forall|i: int, k: int|
                0 <= i < b@.len() && 0 <= k < rev@.len() ==> (#[trigger] b@[i]).key_le(
                    #[trigger] rev@[k],
                ),
            rev@.to_multiset().add(a@.to_multiset()).add(b@.to_multiset()) == total,
            rev@.len() + a@.len() + b@.len() == total_len,
            rev@.len() == tail.len(),
            forall|i: int| 0 <= i < rev@.len() ==> #[trigger] rev@[i] == tail[tail.len() - 1 - i],
            forall|x: T|
                #![trigger same_key(x)]
                a0.filter(same_key(x)) + b0.filter(same_key(x)) == a@.filter(same_key(x)) + b@.filter(
                    same_key(x),
                ) + tail.filter(same_key(x)),
        decreases a@.len() + b@.len(),
    {
        let take_a = if a.len() == 0 {
            false
        } else if b.len() == 0 {
            true
        } else {
            !a[a.len() - 1].key_le_exec(&b[b.len() - 1])
        };
        let ghost old_a = a@;
        let ghost old_b = b@;
        let ghost old_rev = rev@;
        if take_a {
            let x = a.pop().unwrap();
            proof {
                assert(old_a =~= a@.push(x));
                if old_b.len() > 0 {
                    T::lemma_key_le_total(x, old_b.last());
                    assert forall|i: int| 0 <= i < b@.len() implies (#[trigger] b@[i]).key_le(x) by {
                        lemma_sorted_last(b@, i);
                        T::lemma_key_le_trans(b@[i], b@.last(), x);
                    }
                }
                assert forall|i: int| 0 <= i < a@.len() implies (#[trigger] a@[i]).key_le(x) by {
                    assert(old_a[i].key_le(old_a[old_a.len() - 1]));
                }
            }
            rev.push(x);
            proof {
                let old_tail = tail;
                tail = seq![x] + old_tail;
                assert forall|i: int| 0 <= i < rev@.len() implies #[trigger] rev@[i] == tail[tail.len() - 1 - i] by {
                    if i < rev@.len() - 1 {
                        assert(rev@[i] == old_rev[i]);
                    }
                }
                assert forall|y: T|
                    #![trigger same_key(y)]
                    a0.filter(same_key(y)) + b0.filter(same_key(y)) == a@.filter(same_key(y)) + b@.filter(
                        same_key(y),
                    ) + tail.filter(same_key(y)) by {
                    let q = same_key(y);
                    old_tail.lemma_filter_prepend(x, q);
                    a@.lemma_filter_push(x, q);
                    assert(old_a.filter(q) == a@.push(x).filter(q));
                    if q(x) {
                        assert forall|i: int| 0 <= i < b@.len() implies !q(#[trigger] b@[i]) by {
                            if q(b@[i]) {
                                lemma_sorted_last(b@, i);
                                T::lemma_key_le_trans(x, y, b@[i]);
                                T::lemma_key_le_trans(x, b@[i], b@.last());
                            }
                        }
                        b@.lemma_all_neg_filter_empty(q);
                        assert(b@.filter(q) =~= Seq::<T>::empty());
                    }
                    assert(a@.filter(q) + b@.filter(q) + tail.filter(q) =~= old_a.filter(q) + b@.filter(q)
                        + old_tail.filter(q));
                }
            }
            proof {
                assert(old_rev.push(x) == rev@);
                to_multiset_build(a@, x);
                to_multiset_build(old_rev, x);
                assert(old_a.to_multiset() == a@.to_multiset().insert(x));
                assert(rev@.to_multiset() == old_rev.to_multiset().insert(x));
                assert(rev@.to_multiset().add(a@.to_multiset()).add(b@.to_multiset()) =~= total);
                assert forall|i: int, j: int| 0 <= i < j < rev@.len() implies (#[trigger] rev@[j]).key_le(
                    #[trigger] rev@[i],
                ) by {
                    if j == rev@.len() - 1 {
                        assert(old_a[old_a.len() - 1].key_le(old_rev[i]));
                    }
                }
            }
        } else {
            let x = b.pop().unwrap();
            proof {
                assert(old_b =~= b@.push(x));
                if old_a.len() > 0 {
                    assert forall|i: int| 0 <= i < a@.len() implies (#[trigger] a@[i]).key_le(x) by {
                        lemma_sorted_last(old_a, i);
                        T::lemma_key_le_trans(a@[i], old_a.last(), x);
                    }
                }
                assert forall|i: int| 0 <= i < b@.len() implies (#[trigger] b@[i]).key_le(x) by {
                    assert(old_b[i].key_le(old_b[old_b.len() - 1]));
                }
            }
            rev.push(x);
            proof {
                let old_tail = tail;
                tail = seq![x] + old_tail;
                assert forall|i: int| 0 <= i < rev@.len() implies #[trigger] rev@[i] == tail[tail.len() - 1 - i] by {
                    if i < rev@.len() - 1 {
                        assert(rev@[i] == old_rev[i]);
                    }
                }
                assert forall|y: T|
                    #![trigger same_key(y)]
                    a0.filter(same_key(y)) + b0.filter(same_key(y)) == a@.filter(same_key(y)) + b@.filter(
                        same_key(y),
                    ) + tail.filter(same_key(y)) by {
                    let q = same_key(y);
                    old_tail.lemma_filter_prepend(x, q);
                    b@.lemma_filter_push(x, q);
                    assert(old_b.filter(q) == b@.push(x).filter(q));
                    assert(a@.filter(q) + b@.filter(q) + tail.filter(q) =~= a@.filter(q) + old_b.filter(q)
                        + old_tail.filter(q));
                }
            }
            proof {
                assert(old_rev.push(x) == rev@);
                to_multiset_build(b@, x);
                to_multiset_build(old_rev, x);
                assert(old_b.to_multiset() == b@.to_multiset().insert(x));
                assert(rev@.to_multiset() == old_rev.to_multiset().insert(x));
                assert(rev@.to_multiset().add(a@.to_multiset()).add(b@.to_multiset()) =~= total);
                assert forall|i: int, j: int| 0 <= i < j < rev@.len() implies (#[trigger] rev@[j]).key_le(
                    #[trigger] rev@[i],
                ) by {
                    if j == rev@.len() - 1 {
                        assert(old_b[old_b.len() - 1].key_le(old_rev[i]));
                    }
                }
            }
        }
    }
    assert(a@.to_multiset() =~= Multiset::empty());
    assert(b@.to_multiset() =~= Multiset::empty());
    let ghost full = rev@;
    proof {
        reveal(Seq::filter);
        assert forall|x: T| #[trigger] tail.filter(same_key(x)) == a0.filter(same_key(x)) + b0.filter(
            same_key(x),
        ) by {
            assert(a0.filter(same_key(x)) + b0.filter(same_key(x)) == a@.filter(same_key(x)) + b@.filter(
                same_key(x),
            ) + tail.filter(same_key(x)));
            assert(a@.filter(same_key(x)) =~= Seq::<T>::empty());
            assert(b@.filter(same_key(x)) =~= Seq::<T>::empty());
            assert(Seq::<T>::empty() + Seq::<T>::empty() + tail.filter(same_key(x)) =~= tail.filter(same_key(x)));
        }
    }
    let mut out: Vec<T> = Vec::new();
    while rev.len() > 0
        invariant
            rev@.len() + out@.len() == tail.len(),
            forall|i: int| 0 <= i < rev@.len() ==> #[trigger] rev@[i] == tail[tail.len() - 1 - i],
            out@ == tail.take(out@.len() as int),
            descending_by_key(rev@),
            sorted_by_key(out@),
            forall|i: int, k: int|
                0 <= i < out@.len() && 0 <= k < rev@.len() ==> (#[trigger] out@[i]).key_le(
                    #[trigger] rev@[k],
                ),
            out@.to_multiset().add(rev@.to_multiset()) == total,
            out@.len() + rev@.len() == total_len,
        decreases rev@.len(),
    {
        let ghost old_rev = rev@;
        let ghost old_out = out@;
        let x = rev.pop().unwrap();
        proof {
            assert(old_rev =~= rev@.push(x));
        }
        out.push(x);
        proof {
            assert(old_out.push(x) == out@);
            to_multiset_build(rev@, x);
            to_multiset_build(old_out, x);
            assert(old_rev.to_multiset() == rev@.to_multiset().insert(x));
            assert(out@.to_multiset() == old_out.to_multiset().insert(x));
            assert(out@.to_multiset().add(rev@.to_multiset()) =~= total);
            assert forall|i: int, k: int|
                0 <= i < out@.len() && 0 <= k < rev@.len() implies (#[trigger] out@[i]).key_le(
                #[trigger] rev@[k],
            ) by {
                if i == out@.len() - 1 {
                    assert(old_rev[old_rev.len() - 1].key_le(old_rev[k]));
                }
            }
        }
    }
    assert(rev@.to_multiset() =~= Multiset::empty());
    assert(out@ =~= tail);
    out
}

/// Stable merge sort by `T::key_le`.
pub fn sort_by_key<T: SortKey>(v: Vec<T>) -> (r: Vec<T>)
    ensures
        sorted_by_key(r@),
        r@.to_multiset() == v@.to_multiset(),
        r@.len() == v@.len(),
        keeps_ties(r@, v@),
    decreases v@.len(),
{
    broadcast use group_to_multiset_ensures;

    if v.len() <= 1 {
        proof {
            if v@.len() == 1 {
                T::lemma_key_le_total(v@[0], v@[0]);
            }
        }
        return v;
    }
    let ghost orig = v@;
    let mut left = v;
    let mid = left.len() / 2;
    let right = left.split_off(mid);
    proof {
        assert(orig =~= left@ + right@);
        lemma_multiset_commutative(left@, right@);
    }
    let ghost lv = left@;
    let ghost rv = right@;
    let l = sort_by_key(left);
    let r = sort_by_key(right);
    let m = merge(l, r);
    proof {
        assert forall|x: T| #[trigger] m@.filter(same_key(x)) == orig.filter(same_key(x)) by {
            Seq::filter_distributes_over_add(lv, rv, same_key(x));
            assert(l@.filter(same_key(x)) == lv.filter(same_key(x)));
            assert(r@.filter(same_key(x)) == rv.filter(same_key(x)));
        }
    }
    m
}

} // verus!
