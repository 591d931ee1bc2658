//! Small facts about sequences used by the loops of this crate.
use vstd::prelude::*;

verus! {

/// Filtering a sequence extended by one element.
pub proof fn lemma_filter_push<A>(s: Seq<A>, keep: spec_fn(A) -> bool, e: A)
    ensures
        s.push(e).filter(keep) == (if keep(e) { s.filter(keep).push(e) } else { s.filter(keep) }),
{
    reveal(Seq::filter);
    assert(s.push(e).drop_last() =~= s);
}

/// The first `i + 1` elements are the first `i` followed by the element
/// at `i`.
pub proof fn lemma_take_next<A>(s: Seq<A>, i: int)
    requires
        0 <= i < s.len(),
    ensures
        s.take(i + 1) == s.take(i).push(s[i]),
{
    assert(s.take(i + 1) =~= s.take(i).push(s[i]));
}

pub proof fn lemma_take_all<A>(s: Seq<A>)
    ensures
        s.take(s.len() as int) == s,
{
    assert(s.take(s.len() as int) =~= s);
}

/// The views of the elements of `s`.
pub open spec fn views<T: View>(s: Seq<T>) -> Seq<T::V> {
    Seq::new(s.len(), |i: int| s[i]@)
}

pub proof fn lemma_views_update<T: View>(s: Seq<T>, i: int, x: T)
    requires
        0 <= i < s.len(),
    ensures
        views(s.update(i, x)) == views(s).update(i, x@),
{
    assert(views(s.update(i, x)) =~= views(s).update(i, x@));
}

/// The element at `i`, for editing in place.
pub fn elem_mut<T: View>(v: &mut Vec<T>, i: usize) -> (r: &mut T)
    requires
        i < old(v)@.len(),
    ensures
        *r == old(v)@[i as int],
        final(v)@ == old(v)@.update(i as int, *final(r)),
        views(final(v)@) == views(old(v)@).update(i as int, (*final(r))@),
{
    let r = &mut v[i];
    proof {
        lemma_views_update(old(v)@, i as int, *final(r));
    }
    r
}
/// Keeps, in order, the elements whose flag is set; the flags are those
/// of the predicate `p` on the elements' views.
pub fn retain_flagged<T: View>(v: &mut Vec<T>, keep: &Vec<bool>, Ghost(p): Ghost<spec_fn(T::V) -> bool>)
    requires
        keep@.len() == old(v)@.len(),
        forall|i: int| 0 <= i < keep@.len() ==> keep@[i] == p(#[trigger] old(v)@[i]@),
    ensures
        views(final(v)@) == views(old(v)@).filter(p),
{
    let ghost s0 = views(v@);
    let mut i: usize = 0;
    let mut j: usize = 0;
    while j < keep.len()
        invariant
            j <= keep@.len(),
            i <= j,
            keep@.len() == s0.len(),
            v@.len() == i + (s0.len() - j),
            views(v@).subrange(0, i as int) == s0.take(j as int).filter(p),
            forall|k: int| i <= k < v@.len() ==> #[trigger] v@[k]@ == s0[j + k - i],
            forall|k: int| 0 <= k < keep@.len() ==> keep@[k] == p(#[trigger] s0[k]),
        decreases keep.len() - j,
    {
        proof {
            lemma_take_next(s0, j as int);
            lemma_filter_push(s0.take(j as int), p, s0[j as int]);
            assert(v@[i as int]@ == s0[j as int]);
        }
        if keep[j] {
            assert(views(v@).subrange(0, i + 1) =~= views(v@).subrange(0, i as int).push(v@[i as int]@));
            i = i + 1;
        } else {
            let ghost before = v@;
            v.remove(i);
            assert(views(v@).subrange(0, i as int) =~= views(before).subrange(0, i as int));
            assert forall|k: int| i <= k < v@.len() implies #[trigger] v@[k]@ == s0[j + 1 + k - i] by {
                assert(v@[k] == before[k + 1]);
            }
        }
        j = j + 1;
    }
    proof {
        lemma_take_all(s0);
        assert(views(v@).subrange(0, i as int) =~= views(v@));
    }
}

} // verus!
