//! A stable merge sort, specified by the function it computes.
//!
//! The library sorts reports "largest first, then by path" and snapshot
//! dates in text order. `merge_sort` is the exact result of the executable
//! sort; the lemmas below show that it is ordered and a permutation of its
//! input whenever the order is a total preorder.
use vstd::prelude::*;
use vstd::relations::{sorted_by, transitive, strongly_connected};
use vstd::multiset::Multiset;

verus! {

broadcast use vstd::multiset::group_multiset_axioms, vstd::seq_lib::group_to_multiset_ensures;

/// Values that are sorted by a total preorder on their views.
pub trait SortKey: View + Sized {
    /// `a` may come before `b`.
    spec fn key_le(a: Self::V, b: Self::V) -> bool;

    /// Decides `key_le` on two values.
    fn le(&self, other: &Self) -> (r: bool)
        ensures
            r == Self::key_le(self@, other@),
    ;

    /// `key_le` is a total preorder.
    proof fn lemma_key_le_preorder()
        ensures
            transitive(|a: Self::V, b: Self::V| Self::key_le(a, b)),
            strongly_connected(|a: Self::V, b: Self::V| Self::key_le(a, b)),
    ;
}

/// Merges two sequences, taking from `left` while its head may come first.
pub open spec fn merge<V>(left: Seq<V>, right: Seq<V>, le: spec_fn(V, V) -> bool) -> Seq<V>
    decreases left.len() + right.len(),
{
    if left.len() == 0 {
        right
    } else if right.len() == 0 {
        left
    } else if le(left[0], right[0]) {
        seq![left[0]] + merge(left.drop_first(), right, le)
    } else {
        seq![right[0]] + merge(left, right.drop_first(), le)
    }
}

/// The stable merge sort of `s`: sort each half, then merge them.
pub open spec fn merge_sort<V>(s: Seq<V>, le: spec_fn(V, V) -> bool) -> Seq<V>
    decreases s.len(),
{
    if s.len() <= 1 {
        s
    } else {
        let half = s.len() / 2;
        merge(merge_sort(s.take(half as int), le), merge_sort(s.skip(half as int), le), le)
    }
}

pub proof fn lemma_merge_len<V>(left: Seq<V>, right: Seq<V>, le: spec_fn(V, V) -> bool)
    ensures
        merge(left, right, le).len() == left.len() + right.len(),
        merge(left, right, le).to_multiset() == left.to_multiset().add(right.to_multiset()),
    decreases left.len() + right.len(),
{
    if left.len() == 0 {
        assert(left.to_multiset() =~= Multiset::empty());
    } else if right.len() == 0 {
        assert(right.to_multiset() =~= Multiset::empty());
    } else if le(left[0], right[0]) {
        lemma_merge_len(left.drop_first(), right, le);
        assert(left =~= seq![left[0]] + left.drop_first());
        vstd::seq_lib::lemma_multiset_commutative(seq![left[0]], left.drop_first());
        vstd::seq_lib::lemma_multiset_commutative(
            seq![left[0]],
            merge(left.drop_first(), right, le),
        );
    } else {
        lemma_merge_len(left, right.drop_first(), le);
        assert(right =~= seq![right[0]] + right.drop_first());
        vstd::seq_lib::lemma_multiset_commutative(seq![right[0]], right.drop_first());
        vstd::seq_lib::lemma_multiset_commutative(
            seq![right[0]],
            merge(left, right.drop_first(), le),
        );
    }
}

pub proof fn lemma_merge_sorted<V>(left: Seq<V>, right: Seq<V>, le: spec_fn(V, V) -> bool)
    requires
        sorted_by(left, le),
        sorted_by(right, le),
        transitive(le),
        strongly_connected(le),
    ensures
        sorted_by(merge(left, right, le), le),
        merge(left, right, le).len() > 0 ==> (merge(left, right, le)[0] == left[0] || merge(
            left,
            right,
            le,
        )[0] == right[0]),
    decreases left.len() + right.len(),
{
    lemma_merge_len(left, right, le);
    if left.len() == 0 || right.len() == 0 {
    } else if le(left[0], right[0]) {
        let rest = merge(left.drop_first(), right, le);
        lemma_merge_sorted(left.drop_first(), right, le);
        lemma_merge_len(left.drop_first(), right, le);
        let out = seq![left[0]] + rest;
        assert forall|i: int, j: int| 0 <= i < j < out.len() implies #[trigger] le(out[i], out[j]) by {
            if i == 0 {
                assert(out[j] == rest[j - 1]);
                // every element of rest is at least its head, which is at least left[0]
                if left.len() > 1 && rest[0] == left[1] {
                    assert(le(left[0], left[1]));
                } else {
                    assert(rest[0] == right[0]);
                }
                if j - 1 > 0 {
                    assert(le(rest[0], rest[j - 1]));
                }
            } else {
                assert(out[i] == rest[i - 1]);
                assert(out[j] == rest[j - 1]);
            }
        }
    } else {
        let rest = merge(left, right.drop_first(), le);
        lemma_merge_sorted(left, right.drop_first(), le);
        lemma_merge_len(left, right.drop_first(), le);
        let out = seq![right[0]] + rest;
        assert(le(right[0], left[0]));
        assert forall|i: int, j: int| 0 <= i < j < out.len() implies #[trigger] le(out[i], out[j]) by {
            if i == 0 {
                assert(out[j] == rest[j - 1]);
                if rest[0] == left[0] {
                } else {
                    assert(rest[0] == right.drop_first()[0]);
                    assert(le(right[0], right[1]));
                }
                if j - 1 > 0 {
                    assert(le(rest[0], rest[j - 1]));
                }
            } else {
                assert(out[i] == rest[i - 1]);
                assert(out[j] == rest[j - 1]);
            }
        }
    }
}

/// The merge sort of `s` has the length of `s`.
pub proof fn lemma_merge_sort_len<V>(s: Seq<V>, le: spec_fn(V, V) -> bool)
    ensures
        merge_sort(s, le).len() == s.len(),
    decreases s.len(),
{
    if s.len() > 1 {
        let half = s.len() / 2;
        lemma_merge_sort_len(s.take(half as int), le);
        lemma_merge_sort_len(s.skip(half as int), le);
        lemma_merge_len(merge_sort(s.take(half as int), le), merge_sort(s.skip(half as int), le), le);
    }
}

/// The merge sort of `s` is ordered and holds exactly the elements of `s`.
pub proof fn lemma_merge_sort<V>(s: Seq<V>, le: spec_fn(V, V) -> bool)
    requires
        transitive(le),
        strongly_connected(le),
    ensures
        sorted_by(merge_sort(s, le), le),
        merge_sort(s, le).len() == s.len(),
        merge_sort(s, le).to_multiset() == s.to_multiset(),
    decreases s.len(),
{
    if s.len() <= 1 {
    } else {
        let half = s.len() / 2;
        let l = s.take(half as int);
        let r = s.skip(half as int);
        lemma_merge_sort(l, le);
        lemma_merge_sort(r, le);
        lemma_merge_sorted(merge_sort(l, le), merge_sort(r, le), le);
        lemma_merge_len(merge_sort(l, le), merge_sort(r, le), le);
        assert(s =~= l + r);
        vstd::seq_lib::lemma_multiset_commutative(l, r);
    }
}

/// Inserts `x` into `t` after every element that may come before it.
pub open spec fn insert_after<V>(x: V, t: Seq<V>, le: spec_fn(V, V) -> bool) -> Seq<V>
    decreases t.len(),
{
    if t.len() == 0 {
        seq![x]
    } else if le(t[0], x) {
        seq![t[0]] + insert_after(x, t.drop_first(), le)
    } else {
        seq![x] + t
    }
}

/// The stable insertion sort of `s`: each element goes after the earlier
/// ones that may come before it.
pub open spec fn insertion_sort<V>(s: Seq<V>, le: spec_fn(V, V) -> bool) -> Seq<V>
    decreases s.len(),
{
    if s.len() == 0 {
        s
    } else {
        insert_after(s.last(), insertion_sort(s.drop_last(), le), le)
    }
}

/// `p` holds of everything that may come before something it holds of.
pub open spec fn closed_before<V>(p: spec_fn(V) -> bool, le: spec_fn(V, V) -> bool) -> bool {
    forall|x: V, y: V| #[trigger] le(x, y) && p(y) ==> p(x)
}

proof fn lemma_merge_one<V>(a: Seq<V>, y: V, le: spec_fn(V, V) -> bool)
    ensures
        merge(a, seq![y], le) == insert_after(y, a, le),
    decreases a.len(),
{
    let one = seq![y];
    assert(one.len() == 1 && one[0] == y);
    if a.len() > 0 {
        lemma_merge_one(a.drop_first(), y, le);
        assert(one.drop_first() =~= Seq::<V>::empty());
        assert(merge(a, Seq::<V>::empty(), le) == a);
        if le(a[0], y) {
            assert(merge(a, one, le) == seq![a[0]] + merge(a.drop_first(), one, le));
        } else {
            assert(merge(a, one, le) == seq![y] + merge(a, one.drop_first(), le));
            assert(insert_after(y, a, le) == seq![y] + a);
        }
    }
}

proof fn lemma_merge_insert<V>(a: Seq<V>, b: Seq<V>, y: V, le: spec_fn(V, V) -> bool)
    requires
        transitive(le),
        strongly_connected(le),
    ensures
        merge(a, insert_after(y, b, le), le) == insert_after(y, merge(a, b, le), le),
    decreases a.len() + b.len(),
{
    if a.len() == 0 {
    } else if b.len() == 0 {
        lemma_merge_one(a, y, le);
    } else if le(b[0], y) {
        let rest = insert_after(y, b.drop_first(), le);
        assert((seq![b[0]] + rest)[0] == b[0]);
        assert((seq![b[0]] + rest).drop_first() =~= rest);
        if le(a[0], b[0]) {
            lemma_merge_insert(a.drop_first(), b, y, le);
            assert(le(a[0], y));
            let m = merge(a.drop_first(), b, le);
            assert((seq![a[0]] + m)[0] == a[0]);
            assert((seq![a[0]] + m).drop_first() =~= m);
        } else {
            lemma_merge_insert(a, b.drop_first(), y, le);
            let m = merge(a, b.drop_first(), le);
            assert((seq![b[0]] + m)[0] == b[0]);
            assert((seq![b[0]] + m).drop_first() =~= m);
        }
    } else {
        assert(le(y, b[0]));
        assert((seq![y] + b)[0] == y);
        assert((seq![y] + b).drop_first() =~= b);
        if le(a[0], y) {
            lemma_merge_insert(a.drop_first(), b, y, le);
            assert(le(a[0], b[0]));
            let m = merge(a.drop_first(), b, le);
            assert((seq![a[0]] + m)[0] == a[0]);
            assert((seq![a[0]] + m).drop_first() =~= m);
        } else {
            let m = merge(a, b, le);
            if le(a[0], b[0]) {
                assert(m[0] == a[0]);
            } else {
                assert(m[0] == b[0]);
            }
        }
    }
}

proof fn lemma_merge_insertion_sorts<V>(a: Seq<V>, b: Seq<V>, le: spec_fn(V, V) -> bool)
    requires
        transitive(le),
        strongly_connected(le),
    ensures
        merge(insertion_sort(a, le), insertion_sort(b, le), le) == insertion_sort(a + b, le),
    decreases b.len(),
{
    if b.len() == 0 {
        assert(a + b =~= a);
    } else {
        let y = b.last();
        let b1 = b.drop_last();
        lemma_merge_insertion_sorts(a, b1, le);
        lemma_merge_insert(insertion_sort(a, le), insertion_sort(b1, le), y, le);
        assert((a + b).drop_last() =~= a + b1);
        assert((a + b).last() == y);
    }
}

/// The merge sort is the stable insertion sort.
pub proof fn lemma_merge_sort_is_insertion_sort<V>(s: Seq<V>, le: spec_fn(V, V) -> bool)
    requires
        transitive(le),
        strongly_connected(le),
    ensures
        merge_sort(s, le) == insertion_sort(s, le),
    decreases s.len(),
{
    if s.len() == 1 {
        assert(s.drop_last() =~= Seq::<V>::empty());
        assert(insertion_sort(s.drop_last(), le) == s.drop_last());
        assert(insert_after(s.last(), s.drop_last(), le) == seq![s.last()]);
        assert(insertion_sort(s, le) =~= seq![s[0]]);
        assert(s =~= seq![s[0]]);
    } else if s.len() > 1 {
        let half = s.len() / 2;
        let l = s.take(half as int);
        let r = s.skip(half as int);
        lemma_merge_sort_is_insertion_sort(l, le);
        lemma_merge_sort_is_insertion_sort(r, le);
        lemma_merge_insertion_sorts(l, r, le);
        assert(s =~= l + r);
    }
}

proof fn lemma_filter_one<V>(x: V, p: spec_fn(V) -> bool)
    ensures
        seq![x].filter(p) == (if p(x) { seq![x] } else { Seq::<V>::empty() }),
{
    Seq::<V>::empty().lemma_filter_prepend(x, p);
    assert(seq![x] + Seq::<V>::empty() =~= seq![x]);
    assert(Seq::<V>::empty().filter(p) =~= Seq::<V>::empty()) by {
        reveal(Seq::filter);
    }
}

proof fn lemma_insert_kept<V>(x: V, t: Seq<V>, p: spec_fn(V) -> bool, le: spec_fn(V, V) -> bool)
    requires
        transitive(le),
        closed_before(p, le),
        sorted_by(t, le),
        p(x),
    ensures
        insert_after(x, t, le).filter(p) == insert_after(x, t.filter(p), le),
    decreases t.len(),
{
    if t.len() == 0 {
        lemma_filter_one(x, p);
        assert(t.filter(p) =~= Seq::<V>::empty()) by {
            reveal(Seq::filter);
        }
    } else {
        let t1 = t.drop_first();
        assert(t =~= seq![t[0]] + t1);
        t1.lemma_filter_prepend(t[0], p);
        assert(sorted_by(t1, le)) by {
            assert forall|i: int, j: int| 0 <= i < j < t1.len() implies #[trigger] le(t1[i], t1[j]) by {
                assert(le(t[i + 1], t[j + 1]));
            }
        }
        if le(t[0], x) {
            assert(p(t[0]));
            lemma_insert_kept(x, t1, p, le);
            insert_after(x, t1, le).lemma_filter_prepend(t[0], p);
            let u = t1.filter(p);
            assert((seq![t[0]] + u)[0] == t[0]);
            assert((seq![t[0]] + u).drop_first() =~= u);
        } else {
            t.lemma_filter_prepend(x, p);
            if p(t[0]) {
                let u = t1.filter(p);
                assert((seq![t[0]] + u)[0] == t[0]);
            } else {
                assert forall|i: int| 0 <= i < t1.len() implies !p(#[trigger] t1[i]) by {
                    assert(le(t[0], t[i + 1]));
                }
                t1.lemma_all_neg_filter_empty(p);
                assert(t.filter(p) =~= Seq::<V>::empty());
                assert(seq![x] + t.filter(p) =~= seq![x]);
            }
        }
    }
}

proof fn lemma_insert_dropped<V>(x: V, t: Seq<V>, p: spec_fn(V) -> bool, le: spec_fn(V, V) -> bool)
    requires
        !p(x),
    ensures
        insert_after(x, t, le).filter(p) == t.filter(p),
    decreases t.len(),
{
    if t.len() == 0 {
        lemma_filter_one(x, p);
        assert(t.filter(p) =~= Seq::<V>::empty()) by {
            reveal(Seq::filter);
        }
    } else {
        let t1 = t.drop_first();
        assert(t =~= seq![t[0]] + t1);
        t1.lemma_filter_prepend(t[0], p);
        if le(t[0], x) {
            lemma_insert_dropped(x, t1, p, le);
            insert_after(x, t1, le).lemma_filter_prepend(t[0], p);
        } else {
            t.lemma_filter_prepend(x, p);
            assert(Seq::<V>::empty() + t.filter(p) =~= t.filter(p));
        }
    }
}

proof fn lemma_insertion_sort_filter<V>(s: Seq<V>, p: spec_fn(V) -> bool, le: spec_fn(V, V) -> bool)
    requires
        transitive(le),
        strongly_connected(le),
        closed_before(p, le),
    ensures
        insertion_sort(s, le).filter(p) == insertion_sort(s.filter(p), le),
    decreases s.len(),
{
    if s.len() == 0 {
        assert(s.filter(p) =~= s) by {
            reveal(Seq::filter);
        }
    } else {
        let x = s.last();
        let s1 = s.drop_last();
        assert(s =~= s1.push(x));
        s1.lemma_filter_push(x, p);
        lemma_insertion_sort_filter(s1, p, le);
        lemma_merge_sort_is_insertion_sort(s1, le);
        lemma_merge_sort(s1, le);
        if p(x) {
            lemma_insert_kept(x, insertion_sort(s1, le), p, le);
            let f = s1.filter(p).push(x);
            assert(f.drop_last() =~= s1.filter(p));
        } else {
            lemma_insert_dropped(x, insertion_sort(s1, le), p, le);
        }
    }
}

/// Sorting and then keeping what `p` holds of gives what sorting what `p`
/// holds of gives, when `p` holds of everything that may come before
/// something it holds of: the sort is stable.
pub proof fn lemma_merge_sort_filter<V>(s: Seq<V>, p: spec_fn(V) -> bool, le: spec_fn(V, V) -> bool)
    requires
        transitive(le),
        strongly_connected(le),
        closed_before(p, le),
    ensures
        merge_sort(s, le).filter(p) == merge_sort(s.filter(p), le),
{
    lemma_merge_sort_is_insertion_sort(s, le);
    lemma_merge_sort_is_insertion_sort(s.filter(p), le);
    lemma_insertion_sort_filter(s, p, le);
}

/// The elements of `v` in reverse order.
fn reversed<T>(v: Vec<T>) -> (res: Vec<T>)
    ensures
        res@ == v@.reverse(),
{
    let mut v = v;
    let ghost orig = v@;
    let mut res: Vec<T> = Vec::new();
    while v.len() > 0
        invariant
            v@ == orig.take(v@.len() as int),
            res@ == orig.skip(v@.len() as int).reverse(),
            v@.len() <= orig.len(),
        decreases v@.len(),
    {
        let x = v.pop().unwrap();
        res.push(x);
        proof {
            assert(v@ =~= orig.take(v@.len() as int));
            assert(res@ =~= orig.skip(v@.len() as int).reverse());
        }
    }
    assert(orig.skip(0) =~= orig);
    res
}

/// The views of the elements of `s`.
pub open spec fn views<T: View>(s: Seq<T>) -> Seq<T::V> {
    s.map_values(|x: T| x@)
}

/// The executable merge of two sorted halves.
fn merge_vec<T: SortKey>(left: Vec<T>, right: Vec<T>) -> (res: Vec<T>)
    ensures
        views(res@) == merge(views(left@), views(right@), |a: T::V, b: T::V| T::key_le(a, b)),
{
    let ghost le = |a: T::V, b: T::V| T::key_le(a, b);
    let mut l = reversed(left);
    let mut r = reversed(right);
    let ghost total = merge(views(left@), views(right@), le);
    let mut out: Vec<T> = Vec::new();
    assert(l@.reverse() =~= left@);
    assert(r@.reverse() =~= right@);
    assert(views(out@) + total =~= total);
    while l.len() > 0 && r.len() > 0
        invariant
            le == (|a: T::V, b: T::V| T::key_le(a, b)),
            total == views(out@) + merge(views(l@.reverse()), views(r@.reverse()), le),
        decreases l@.len() + r@.len(),
    {
        let ghost lv = views(l@.reverse());
        let ghost rv = views(r@.reverse());
        let take_left = l[l.len() - 1].le(&r[r.len() - 1]);
        proof {
            assert(lv[0] == l@[l@.len() - 1]@);
            assert(rv[0] == r@[r@.len() - 1]@);
        }
        let ghost before = out@;
        if take_left {
            let x = l.pop().unwrap();
            out.push(x);
            proof {
                assert(views(l@.reverse()) =~= lv.drop_first());
                assert(views(out@) =~= views(before) + seq![lv[0]]);
            }
        } else {
            let x = r.pop().unwrap();
            out.push(x);
            proof {
                assert(views(r@.reverse()) =~= rv.drop_first());
                assert(views(out@) =~= views(before) + seq![rv[0]]);
            }
        }
    }
    let ghost mid = out@;
    let rest = if l.len() > 0 {
        reversed(l)
    } else {
        reversed(r)
    };
    proof {
        assert(rest@.reverse().reverse() =~= rest@);
    }
    let mut out = out;
    let mut rest = rest;
    let ghost rest0 = rest@;
    out.append(&mut rest);
    assert(views(out@) =~= views(mid) + views(rest0));
    out
}

/// Sorts `v` stably by `T::le`.
pub fn sort_vec<T: SortKey>(v: Vec<T>) -> (res: Vec<T>)
    ensures
        views(res@) == merge_sort(views(v@), |a: T::V, b: T::V| T::key_le(a, b)),
    decreases v@.len(),
{
    let n = v.len();
    if n <= 1 {
        return v;
    }
    let mut left = v;
    let ghost all = left@;
    let right = left.split_off(n / 2);
    proof {
        assert(views(left@) =~= views(all).take((n / 2) as int));
        assert(views(right@) =~= views(all).skip((n / 2) as int));
    }
    let l = sort_vec(left);
    let r = sort_vec(right);
    merge_vec(l, r)
}

} // verus!
