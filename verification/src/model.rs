//! Views of optional values, sequences and results, element by element.

use vstd::prelude::*;

verus! {

/// The view of an optional value.
pub open spec fn opt<T: View>(o: Option<T>) -> Option<T::V> {
    match o {
        Some(x) => Some(x@),
        None => None,
    }
}

/// The views of the elements of a sequence.
pub open spec fn views<T: View>(s: Seq<T>) -> Seq<T::V> {
    Seq::new(s.len(), |i: int| s[i]@)
}

/// The view of a result.
pub open spec fn outcome<T: View, E: View>(r: Result<T, E>) -> Result<T::V, E::V> {
    match r {
        Ok(x) => Ok(x@),
        Err(e) => Err(e@),
    }
}

/// The views of a sequence of results.
pub open spec fn outcomes<T: View, E: View>(s: Seq<Result<T, E>>) -> Seq<Result<T::V, E::V>> {
    Seq::new(s.len(), |i: int| outcome(s[i]))
}

/// What `f` yields of the elements of `s`, in order.
pub open spec fn pick<A, B>(s: Seq<A>, f: spec_fn(A) -> Option<B>) -> Seq<B>
    decreases s.len(),
{
    if s.len() == 0 {
        Seq::empty()
    } else {
        match f(s.last()) {
            Some(b) => pick(s.drop_last(), f).push(b),
            None => pick(s.drop_last(), f),
        }
    }
}

/// What `f` yields of the elements of `s`, one list after the other.
pub open spec fn flat<A, B>(s: Seq<A>, f: spec_fn(A) -> Seq<B>) -> Seq<B>
    decreases s.len(),
{
    if s.len() == 0 {
        Seq::empty()
    } else {
        flat(s.drop_last(), f) + f(s.last())
    }
}

/// What a longer prefix yields: the yield of the shorter one, and that of one
/// more element.
pub proof fn lemma_flat_take<A, B>(s: Seq<A>, f: spec_fn(A) -> Seq<B>, i: int)
    requires
        0 <= i < s.len(),
    ensures
        flat(s.take(i + 1), f) == flat(s.take(i), f) + f(s[i]),
{
    assert(s.take(i + 1).drop_last() =~= s.take(i));
}

/// What a longer prefix yields: the yield of the shorter one, and that of one
/// more element.
pub proof fn lemma_pick_take<A, B>(s: Seq<A>, f: spec_fn(A) -> Option<B>, i: int)
    requires
        0 <= i < s.len(),
    ensures
        pick(s.take(i + 1), f) == (match f(s[i]) {
            Some(b) => pick(s.take(i), f).push(b),
            None => pick(s.take(i), f),
        }),
{
    assert(s.take(i + 1).drop_last() =~= s.take(i));
}

/// Pushing an element adds its view at the end.
pub proof fn lemma_views_push<T: View>(s: Seq<T>, x: T)
    ensures
        views(s.push(x)) == views(s).push(x@),
{
    assert(views(s.push(x)) =~= views(s).push(x@));
}

/// The views of a longer prefix are those of the shorter one and one more.
pub proof fn lemma_views_take<T: View>(s: Seq<T>, i: int)
    requires
        0 <= i < s.len(),
    ensures
        views(s).take(i + 1) == views(s).take(i).push(s[i]@),
        views(s).take(i + 1).drop_last() == views(s).take(i),
        views(s).take(i + 1).last() == s[i]@,
{
    assert(views(s).take(i + 1) =~= views(s).take(i).push(s[i]@));
    assert(views(s).take(i + 1).drop_last() =~= views(s).take(i));
}

/// A copy of an optional text.
pub fn clone_opt_string(o: &Option<String>) -> (r: Option<String>)
    ensures
        opt(r) == opt(*o),
{
    match o {
        Some(s) => Some(s.clone()),
        None => None,
    }
}

/// A copy of a list of texts.
pub fn clone_strings(v: &Vec<String>) -> (r: Vec<String>)
    ensures
        views(r@) == views(v@),
{
    let mut out: Vec<String> = Vec::new();
    let mut i: usize = 0;
    while i < v.len()
        invariant
            i <= v.len(),
            out.len() == i,
            forall|j: int| 0 <= j < i ==> out@[j]@ == v@[j]@,
        decreases v.len() - i,
    {
        out.push(v[i].clone());
        i += 1;
    }
    assert(views(out@) =~= views(v@));
    out
}

/// A sequence with an element put behind the last element that may stand before it.
pub open spec fn insert_by<A>(s: Seq<A>, x: A, le: spec_fn(A, A) -> bool) -> Seq<A>
    decreases s.len(),
{
    if s.len() == 0 || le(s.last(), x) {
        s.push(x)
    } else {
        insert_by(s.drop_last(), x, le).push(s.last())
    }
}

/// A sequence in order; elements that may stand either way keep their order.
pub open spec fn sort_by<A>(s: Seq<A>, le: spec_fn(A, A) -> bool) -> Seq<A>
    decreases s.len(),
{
    if s.len() == 0 {
        Seq::empty()
    } else {
        insert_by(sort_by(s.drop_last(), le), s.last(), le)
    }
}

/// Whether every element may stand before every later one.
pub open spec fn in_order<A>(s: Seq<A>, le: spec_fn(A, A) -> bool) -> bool {
    forall|i: int, j: int| 0 <= i <= j < s.len() ==> le(#[trigger] s[i], #[trigger] s[j])
}

/// Whether a relation orders every two elements, and chains.
pub open spec fn total_preorder<A>(le: spec_fn(A, A) -> bool) -> bool {
    &&& forall|a: A, b: A| #[trigger] le(a, b) || le(b, a)
    &&& forall|a: A, b: A, c: A| #[trigger] le(a, b) && #[trigger] le(b, c) ==> le(a, c)
}

/// Where an element goes: the position found by scanning from the end.
pub proof fn lemma_insert_by<A>(s: Seq<A>, x: A, le: spec_fn(A, A) -> bool, pos: int)
    requires
        0 <= pos <= s.len(),
        pos == 0 || le(s[pos - 1], x),
        forall|i: int| pos <= i < s.len() ==> !le(#[trigger] s[i], x),
    ensures
        insert_by(s, x, le) == s.insert(pos, x),
    decreases s.len(),
{
    if pos == s.len() {
        assert(s.insert(pos, x) =~= s.push(x));
    } else {
        assert(!le(s[s.len() - 1], x));
        let d = s.drop_last();
        assert forall|i: int| pos <= i < d.len() implies !le(#[trigger] d[i], x) by {
            assert(d[i] == s[i]);
        }
        lemma_insert_by(d, x, le, pos);
        assert(d.insert(pos, x).push(s.last()) =~= s.insert(pos, x));
    }
}

/// Inserting keeps order and adds just the element.
pub proof fn lemma_insert_keeps_order<A>(s: Seq<A>, x: A, le: spec_fn(A, A) -> bool)
    requires
        total_preorder(le),
        in_order(s, le),
    ensures
        in_order(insert_by(s, x, le), le),
        insert_by(s, x, le).to_multiset() == s.to_multiset().insert(x),
        insert_by(s, x, le).len() == s.len() + 1,
    decreases s.len(),
{
    broadcast use vstd::seq_lib::group_to_multiset_ensures;

    assert(le(x, x) || le(x, x));
    if s.len() == 0 || le(s.last(), x) {
        let r = s.push(x);
        assert forall|i: int, j: int| 0 <= i <= j < r.len() implies le(
            #[trigger] r[i],
            #[trigger] r[j],
        ) by {
            if i < s.len() {
                assert(le(s[i], s[s.len() - 1]));
            }
        }
    } else {
        let d = s.drop_last();
        assert forall|i: int, j: int| 0 <= i <= j < d.len() implies le(
            #[trigger] d[i],
            #[trigger] d[j],
        ) by {
            assert(le(s[i], s[j]));
        }
        lemma_insert_keeps_order(d, x, le);
        let m = insert_by(d, x, le);
        let r = m.push(s.last());
        assert(le(x, s.last()));
        assert forall|i: int| 0 <= i < m.len() implies le(#[trigger] m[i], s.last()) by {
            assert(m.to_multiset().contains(m[i]));
            if m[i] != x {
                assert(d.to_multiset().contains(m[i]));
                assert(d.contains(m[i]));
                let k = choose|k: int| 0 <= k < d.len() && d[k] == m[i];
                assert(le(s[k], s[s.len() - 1]));
            }
        }
        assert(le(s.last(), s.last()) || le(s.last(), s.last()));
        assert forall|i: int, j: int| 0 <= i <= j < r.len() implies le(
            #[trigger] r[i],
            #[trigger] r[j],
        ) by {}
        assert(s =~= d.push(s.last()));
        assert(r.to_multiset() =~= s.to_multiset().insert(x));
    }
}

/// Sorting yields the same elements, in order.
pub proof fn lemma_sort<A>(s: Seq<A>, le: spec_fn(A, A) -> bool)
    requires
        total_preorder(le),
    ensures
        in_order(sort_by(s, le), le),
        sort_by(s, le).to_multiset() == s.to_multiset(),
        sort_by(s, le).len() == s.len(),
    decreases s.len(),
{
    broadcast use vstd::seq_lib::group_to_multiset_ensures;

    if s.len() > 0 {
        lemma_sort(s.drop_last(), le);
        lemma_insert_keeps_order(sort_by(s.drop_last(), le), s.last(), le);
        assert(s =~= s.drop_last().push(s.last()));
    }
}

/// A filter keeps all of a sequence whose elements it all keeps, and nothing of one
/// of which it keeps no element.
pub proof fn lemma_filter_all<A>(s: Seq<A>, p: spec_fn(A) -> bool)
    ensures
        (forall|i: int| 0 <= i < s.len() ==> p(#[trigger] s[i])) ==> s.filter(p) == s,
        (forall|i: int| 0 <= i < s.len() ==> !p(#[trigger] s[i])) ==> s.filter(p) == Seq::<
            A,
        >::empty(),
    decreases s.len(),
{
    reveal(Seq::filter);
    if s.len() > 0 {
        let d = s.drop_last();
        lemma_filter_all(d, p);
        assert(forall|i: int| 0 <= i < d.len() ==> d[i] == #[trigger] s[i]);
        assert(forall|i: int| 0 <= i < d.len() ==> #[trigger] d[i] == s[i]);
        assert(d.push(s.last()) =~= s);
        assert(s[s.len() - 1] == s.last());
    } else {
        assert(s =~= Seq::empty());
    }
}

/// What is picked is what `f` yields of the elements of which it yields anything.
pub proof fn lemma_pick_filter<A, B>(s: Seq<A>, f: spec_fn(A) -> Option<B>)
    ensures
        pick(s, f) == Seq::new(
            s.filter(|a: A| f(a) is Some).len(),
            |i: int| f(s.filter(|a: A| f(a) is Some)[i])->0,
        ),
    decreases s.len(),
{
    reveal(Seq::filter);
    let some = |a: A| f(a) is Some;
    if s.len() > 0 {
        lemma_pick_filter(s.drop_last(), f);
    }
    assert(pick(s, f) =~= Seq::new(s.filter(some).len(), |i: int| f(s.filter(some)[i])->0));
}

/// Two conditions that hold of the same elements keep the same ones.
pub proof fn lemma_same_filter<A>(s: Seq<A>, p: spec_fn(A) -> bool, q: spec_fn(A) -> bool)
    requires
        forall|i: int| 0 <= i < s.len() ==> p(#[trigger] s[i]) == q(s[i]),
    ensures
        s.filter(p) == s.filter(q),
    decreases s.len(),
{
    reveal(Seq::filter);
    if s.len() > 0 {
        let d = s.drop_last();
        assert forall|i: int| 0 <= i < d.len() implies p(#[trigger] d[i]) == q(d[i]) by {
            assert(d[i] == s[i]);
        }
        lemma_same_filter(d, p, q);
        assert(p(s[s.len() - 1]) == q(s[s.len() - 1]));
    }
}

/// Sorting is stable: elements that may stand either way keep their order.
pub proof fn law_sorting_is_stable<A>(s: Seq<A>, le: spec_fn(A, A) -> bool, a: A)
    requires
        total_preorder(le),
    ensures
        sort_by(s, le).filter(|x: A| le(x, a) && le(a, x)) == s.filter(|x: A| le(x, a) && le(a, x)),
    decreases s.len(),
{
    let like = |x: A| le(x, a) && le(a, x);
    reveal(Seq::filter);
    if s.len() > 0 {
        let d = s.drop_last();
        law_sorting_is_stable(d, le, a);
        lemma_sort(d, le);
        lemma_insert_filter(sort_by(d, le), s.last(), le, a);
    }
}

proof fn lemma_insert_filter<A>(s: Seq<A>, x: A, le: spec_fn(A, A) -> bool, a: A)
    requires
        total_preorder(le),
        in_order(s, le),
    ensures
        ({
            let like = |y: A| le(y, a) && le(a, y);
            insert_by(s, x, le).filter(like) == (if like(x) {
                s.filter(like).push(x)
            } else {
                s.filter(like)
            })
        }),
    decreases s.len(),
{
    let like = |y: A| le(y, a) && le(a, y);
    reveal(Seq::filter);
    if s.len() == 0 || le(s.last(), x) {
        assert(s.push(x).drop_last() =~= s);
    } else {
        let d = s.drop_last();
        assert forall|i: int, j: int| 0 <= i <= j < d.len() implies le(
            #[trigger] d[i],
            #[trigger] d[j],
        ) by {
            assert(le(s[i], s[j]));
        }
        lemma_insert_filter(d, x, le, a);
        let m = insert_by(d, x, le);
        assert(m.push(s.last()).drop_last() =~= m);
        if like(x) && like(s.last()) {
            assert(le(s.last(), a) && le(a, x));
            assert(le(s.last(), x));
        }
    }
}

} // verus!
