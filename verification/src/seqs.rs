//! The view of a sequence of values, element by element, with the lemmas
//! that let proofs move between a container and its mathematical view.

use vstd::prelude::*;

verus! {

/// The sequence of the views of the elements of `s`.
pub open spec fn views<T: View>(s: Seq<T>) -> Seq<T::V> {
    Seq::new(s.len(), |i: int| s[i]@)
}

pub broadcast proof fn lemma_views_len<T: View>(s: Seq<T>)
    ensures
        (#[trigger] views(s)).len() == s.len(),
{
}

pub broadcast proof fn lemma_views_index<T: View>(s: Seq<T>, i: int)
    requires
        0 <= i < s.len(),
    ensures
        (#[trigger] views(s)[i]) == s[i]@,
{
}

pub broadcast proof fn lemma_views_push<T: View>(s: Seq<T>, x: T)
    ensures
        #[trigger] views(s.push(x)) == views(s).push(x@),
{
    assert forall|i: int| 0 <= i < views(s.push(x)).len() implies views(s.push(x))[i] == views(
        s,
    ).push(x@)[i] by {
        if i < s.len() {
            assert(s.push(x)[i] == s[i]);
        } else {
            assert(s.push(x)[i] == x);
        }
    }
    assert(views(s.push(x)) =~= views(s).push(x@));
}

pub broadcast proof fn lemma_views_update<T: View>(s: Seq<T>, i: int, x: T)
    requires
        0 <= i < s.len(),
    ensures
        #[trigger] views(s.update(i, x)) == views(s).update(i, x@),
{
    assert forall|k: int| 0 <= k < views(s.update(i, x)).len() implies views(s.update(i, x))[k]
        == views(s).update(i, x@)[k] by {
        if k != i {
            assert(s.update(i, x)[k] == s[k]);
        }
    }
    assert(views(s.update(i, x)) =~= views(s).update(i, x@));
}

pub broadcast proof fn lemma_views_take<T: View>(s: Seq<T>, i: int)
    requires
        0 <= i <= s.len(),
    ensures
        #[trigger] views(s.take(i)) == views(s).take(i),
{
    assert forall|k: int| 0 <= k < views(s.take(i)).len() implies views(s.take(i))[k] == views(
        s,
    ).take(i)[k] by {
        assert(s.take(i)[k] == s[k]);
    }
    assert(views(s.take(i)) =~= views(s).take(i));
}

pub broadcast proof fn lemma_views_insert<T: View>(s: Seq<T>, i: int, x: T)
    requires
        0 <= i <= s.len(),
    ensures
        #[trigger] views(s.insert(i, x)) == views(s).insert(i, x@),
{
    s.insert_ensures(i, x);
    views(s).insert_ensures(i, x@);
    assert forall|k: int| 0 <= k < views(s.insert(i, x)).len() implies views(s.insert(i, x))[k]
        == views(s).insert(i, x@)[k] by {
        if k < i {
            assert(s.insert(i, x)[k] == s[k]);
        } else if k == i {
            assert(s.insert(i, x)[k] == x);
        } else {
            assert(s.insert(i, x)[k] == s[k - 1]);
        }
    }
    assert(views(s.insert(i, x)) =~= views(s).insert(i, x@));
}

/// The group of all view-sequence lemmas.
pub broadcast group group_views {
    lemma_views_len,
    lemma_views_index,
    lemma_views_push,
    lemma_views_update,
    lemma_views_take,
    lemma_views_insert,
}

} // verus!
