//! Putting things in order, with those that are alike left in the order they came.
use vstd::prelude::*;

verus! {

broadcast use vstd::seq_lib::group_seq_properties;

/// `e` put behind everything that it does not have to stand before.
pub open spec fn put<A>(before: spec_fn(A, A) -> bool, s: Seq<A>, e: A) -> Seq<A>
    decreases s.len(),
{
    if s.len() == 0 || !before(e, s.last()) {
        s.push(e)
    } else {
        put(before, s.drop_last(), e).push(s.last())
    }
}

/// The items in order; those that are alike keep their order.
pub open spec fn ordered<A>(before: spec_fn(A, A) -> bool, s: Seq<A>) -> Seq<A>
    decreases s.len(),
{
    if s.len() == 0 {
        s
    } else {
        put(before, ordered(before, s.drop_last()), s.last())
    }
}

/// Whether `before` orders everything, but for what is alike.
pub open spec fn is_order<A>(before: spec_fn(A, A) -> bool) -> bool {
    &&& forall|a: A, b: A| #[trigger] before(a, b) ==> !before(b, a)
    &&& forall|a: A, b: A, c: A|
        (#[trigger] before(a, c)) ==> (#[trigger] before(a, b)) || before(b, c)
}

/// Whether nothing stands behind what it has to stand before.
pub open spec fn in_order<A>(before: spec_fn(A, A) -> bool, s: Seq<A>) -> bool {
    forall|i: int, j: int| 0 <= i < j < s.len() ==> !before(#[trigger] s[j], #[trigger] s[i])
}

/// The items that are alike to one.
pub open spec fn alike<A>(before: spec_fn(A, A) -> bool, a: A) -> spec_fn(A) -> bool {
    |b: A| !before(a, b) && !before(b, a)
}

/// One step of the search for the place of `e`, from the end of a list.
pub proof fn lemma_put_step<A>(before: spec_fn(A, A) -> bool, s: Seq<A>, e: A, pos: int)
    requires
        0 < pos <= s.len(),
        before(e, s[pos - 1]),
    ensures
        put(before, s.take(pos - 1), e) + s.skip(pos - 1) == put(before, s.take(pos), e) + s.skip(
            pos,
        ),
{
    let t = s.take(pos);
    assert(t.last() == s[pos - 1]);
    assert(t.drop_last() =~= s.take(pos - 1));
    assert(put(before, s.take(pos - 1), e) + s.skip(pos - 1) =~= put(before, t, e) + s.skip(pos));
}

/// The place of `e`, found from the end of a list.
pub proof fn lemma_put_place<A>(before: spec_fn(A, A) -> bool, s: Seq<A>, e: A, pos: int)
    requires
        0 <= pos <= s.len(),
        pos > 0 ==> !before(e, s[pos - 1]),
    ensures
        put(before, s.take(pos), e) + s.skip(pos) == s.insert(pos, e),
{
    let t = s.take(pos);
    if pos > 0 {
        assert(t.last() == s[pos - 1]);
    }
    assert(put(before, t, e) == t.push(e));
    assert(t.push(e) + s.skip(pos) =~= s.insert(pos, e));
}

proof fn lemma_put<A>(before: spec_fn(A, A) -> bool, s: Seq<A>, e: A, a: A)
    requires
        is_order(before),
        in_order(before, s),
    ensures
        in_order(before, put(before, s, e)),
        put(before, s, e).to_multiset() == s.to_multiset().insert(e),
        put(before, s, e).len() == s.len() + 1,
        put(before, s, e).filter(alike(before, a)) == s.push(e).filter(alike(before, a)),
    decreases s.len(),
{
    let p = alike(before, a);
    if s.len() == 0 || !before(e, s.last()) {
        let r = s.push(e);
        assert forall|i: int, j: int| 0 <= i < j < r.len() implies !before(
            #[trigger] r[j],
            #[trigger] r[i],
        ) by {
            if j == s.len() && i < s.len() - 1 {
                assert(!before(s.last(), s[i]));
                assert(before(e, s[i]) ==> before(e, s.last()) || before(s.last(), s[i]));
            }
        }
        s.to_multiset_ensures();
    } else {
        let t = s.drop_last();
        let z = s.last();
        assert(in_order(before, t)) by {
            assert forall|i: int, j: int| 0 <= i < j < t.len() implies !before(
                #[trigger] t[j],
                #[trigger] t[i],
            ) by {
                assert(t[j] == s[j] && t[i] == s[i]);
            }
        }
        lemma_put(before, t, e, a);
        let q = put(before, t, e);
        let r = q.push(z);
        assert(s =~= t.push(z));
        t.to_multiset_ensures();
        q.to_multiset_ensures();
        assert(r.to_multiset() =~= s.to_multiset().insert(e));
        assert forall|i: int, j: int| 0 <= i < j < r.len() implies !before(
            #[trigger] r[j],
            #[trigger] r[i],
        ) by {
            if j == q.len() {
                assert(q.to_multiset().count(q[i]) > 0) by {
                    assert(q.contains(q[i]));
                }
                if q[i] == e {
                    assert(!before(z, e));
                } else {
                    assert(t.to_multiset().count(q[i]) > 0);
                    assert(t.contains(q[i]));
                    let k = t.index_of(q[i]);
                    assert(s[k] == q[i]);
                    assert(!before(s[s.len() - 1], s[k]));
                }
            }
        }
        t.lemma_filter_push(z, p);
        t.push(z).lemma_filter_push(e, p);
        t.lemma_filter_push(e, p);
        q.lemma_filter_push(z, p);
        if p(z) && p(e) {
            assert(before(e, z) ==> before(e, a) || before(a, z));
            assert(false);
        }
    }
}

/// Ordering puts the items in order, loses none, adds none, and keeps those that are alike in
/// the order they came.
pub proof fn law_ordered<A>(before: spec_fn(A, A) -> bool, s: Seq<A>, a: A)
    requires
        is_order(before),
    ensures
        in_order(before, ordered(before, s)),
        ordered(before, s).to_multiset() == s.to_multiset(),
        ordered(before, s).len() == s.len(),
        ordered(before, s).filter(alike(before, a)) == s.filter(alike(before, a)),
    decreases s.len(),
{
    if s.len() > 0 {
        let t = s.drop_last();
        let p = alike(before, a);
        law_ordered(before, t, a);
        lemma_put(before, ordered(before, t), s.last(), a);
        assert(s =~= t.push(s.last()));
        t.to_multiset_ensures();
        t.lemma_filter_push(s.last(), p);
        ordered(before, t).lemma_filter_push(s.last(), p);
    }
}

/// Things that have a rank.
pub trait Ranked: Sized {
    /// Whether this one stands before the other.
    spec fn ranks_ahead(self, other: Self) -> bool;

    /// Whether this one stands before the other.
    fn is_ahead(&self, other: &Self) -> (r: bool)
        ensures
            r == self.ranks_ahead(*other),
    ;
}

/// The order that the ranks make.
pub open spec fn by_rank<T: Ranked>() -> spec_fn(T, T) -> bool {
    |a: T, b: T| a.ranks_ahead(b)
}

fn place_in<T: Ranked>(s: &Vec<T>, e: &T) -> (pos: usize)
    ensures
        pos <= s@.len(),
        put(by_rank::<T>(), s@, *e) == s@.insert(pos as int, *e),
{
    let ghost before = by_rank::<T>();
    let mut pos: usize = s.len();
    proof {
        assert(s@.take(s@.len() as int) =~= s@);
        assert(put(before, s@, *e) + s@.skip(s@.len() as int) =~= put(before, s@, *e));
    }
    while pos > 0 && e.is_ahead(&s[pos - 1])
        invariant
            pos <= s@.len(),
            before == by_rank::<T>(),
            put(before, s@, *e) == put(before, s@.take(pos as int), *e) + s@.skip(pos as int),
        decreases pos,
    {
        proof {
            lemma_put_step(before, s@, *e, pos as int);
        }
        pos -= 1;
    }
    proof {
        lemma_put_place(before, s@, *e, pos as int);
    }
    pos
}

/// Puts things in the order of their ranks; those of one rank keep their order.
pub fn order<T: Ranked>(items: Vec<T>) -> (r: Vec<T>)
    ensures
        r@ == ordered(by_rank::<T>(), items@),
{
    let ghost all = items@;
    let mut r: Vec<T> = Vec::new();
    assert(r@ =~= ordered(by_rank::<T>(), all.take(0)));
    for item in it: items
        invariant
            it.seq() == all,
            r@ == ordered(by_rank::<T>(), all.take(it.index() as int)),
    {
        proof {
            let i = it.index() as int;
            assert(all.take(i + 1).drop_last() =~= all.take(i));
            assert(all.take(i + 1).last() == item);
        }
        let pos: usize = place_in(&r, &item);
        r.insert(pos, item);
    }
    assert(all.take(all.len() as int) =~= all);
    r
}

/// Whether `a` comes before `b` in the order of code points.
pub open spec fn text_less(a: Seq<char>, b: Seq<char>) -> bool
    decreases b.len(),
{
    if b.len() == 0 {
        false
    } else if a.len() == 0 {
        true
    } else {
        a[0] < b[0] || (a[0] == b[0] && text_less(a.drop_first(), b.drop_first()))
    }
}

/// The order of code points orders texts: a text does not come before one that comes before
/// it, and of two texts in order, every third one stands behind the first or before the
/// second.
pub proof fn law_text_less(a: Seq<char>, b: Seq<char>, c: Seq<char>)
    ensures
        text_less(a, b) ==> !text_less(b, a),
        text_less(a, c) ==> text_less(a, b) || text_less(b, c),
        a != b ==> text_less(a, b) || text_less(b, a),
    decreases a.len() + b.len() + c.len(),
{
    if a.len() > 0 && b.len() > 0 && c.len() > 0 {
        law_text_less(a.drop_first(), b.drop_first(), c.drop_first());
        if a[0] == b[0] && a.drop_first() == b.drop_first() {
            assert(a =~= seq![a[0]] + a.drop_first());
            assert(b =~= seq![b[0]] + b.drop_first());
        }
    } else if a.len() > 0 && b.len() > 0 {
        law_text_less(a.drop_first(), b.drop_first(), c);
        if a[0] == b[0] && a.drop_first() == b.drop_first() {
            assert(a =~= seq![a[0]] + a.drop_first());
            assert(b =~= seq![b[0]] + b.drop_first());
        }
    } else if a.len() == 0 && b.len() == 0 {
        assert(a =~= b);
    }
}

} // verus!
