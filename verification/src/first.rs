//! The first thing that a search finds in a sequence.

use vstd::prelude::*;

verus! {

/// The first thing that `find` finds among `items`, in order, if it finds any.
pub open spec fn first_found<T, E>(items: Seq<T>, find: spec_fn(T) -> Option<E>) -> Option<E>
    decreases items.len(),
{
    if items.len() == 0 {
        None
    } else {
        match find(items[0]) {
            Some(e) => Some(e),
            None => first_found(items.drop_first(), find),
        }
    }
}

/// Where `find` finds nothing in the first `i` items, the first thing found is what
/// it finds in item `i`, if anything; and nothing is found if `i` is the number of
/// items.
pub proof fn lemma_first_found<T, E>(items: Seq<T>, find: spec_fn(T) -> Option<E>, i: int)
    requires
        0 <= i <= items.len(),
        forall|k: int| 0 <= k < i ==> find(#[trigger] items[k]) is None,
    ensures
        i == items.len() ==> first_found(items, find) is None,
        i < items.len() && find(items[i]) is Some ==> first_found(items, find) == find(items[i]),
    decreases i,
{
    if i > 0 {
        let rest = items.drop_first();
        assert(find(items[0]) is None);
        assert forall|k: int| 0 <= k < i - 1 implies find(#[trigger] rest[k]) is None by {
            assert(rest[k] == items[k + 1]);
        }
        lemma_first_found(rest, find, i - 1);
        if i < items.len() {
            assert(rest[i - 1] == items[i]);
        }
    }
}

/// Two sequences in whose items `find` finds the same, place by place, have the
/// same first thing found.
pub proof fn lemma_first_found_same<T, E>(a: Seq<T>, b: Seq<T>, find: spec_fn(T) -> Option<E>)
    requires
        a.len() == b.len(),
        forall|k: int| 0 <= k < a.len() ==> find(#[trigger] a[k]) == find(b[k]),
    ensures
        first_found(a, find) == first_found(b, find),
    decreases a.len(),
{
    if a.len() > 0 {
        let x = a.drop_first();
        let y = b.drop_first();
        assert(find(a[0]) == find(b[0]));
        assert forall|k: int| 0 <= k < x.len() implies find(#[trigger] x[k]) == find(y[k]) by {
            assert(x[k] == a[k + 1]);
            assert(y[k] == b[k + 1]);
            assert(find(a[k + 1]) == find(b[k + 1]));
        }
        lemma_first_found_same(x, y, find);
    }
}

/// Where `find` finds something in item `i`, something is found.
pub proof fn lemma_first_found_some<T, E>(items: Seq<T>, find: spec_fn(T) -> Option<E>, i: int)
    requires
        0 <= i < items.len(),
        find(items[i]) is Some,
    ensures
        first_found(items, find) is Some,
    decreases i,
{
    if i > 0 && find(items[0]) is None {
        let rest = items.drop_first();
        assert(rest[i - 1] == items[i]);
        lemma_first_found_some(rest, find, i - 1);
    }
}

/// Where something is found, it is found in some item, and in no item before it.
pub proof fn lemma_first_found_place<T, E>(items: Seq<T>, find: spec_fn(T) -> Option<E>) -> (i:
    int)
    requires
        first_found(items, find) is Some,
    ensures
        0 <= i < items.len(),
        find(items[i]) == first_found(items, find),
        forall|k: int| 0 <= k < i ==> find(#[trigger] items[k]) is None,
    decreases items.len(),
{
    if find(items[0]) is Some {
        0
    } else {
        let rest = items.drop_first();
        let j = lemma_first_found_place(rest, find);
        assert(rest[j] == items[j + 1]);
        assert forall|k: int| 0 <= k < j + 1 implies find(#[trigger] items[k]) is None by {
            if k > 0 {
                assert(rest[k - 1] == items[k]);
            }
        }
        j + 1
    }
}

/// Where nothing is found, nothing is found in any item.
pub proof fn lemma_first_found_none<T, E>(items: Seq<T>, find: spec_fn(T) -> Option<E>)
    requires
        first_found(items, find) is None,
    ensures
        forall|k: int| 0 <= k < items.len() ==> find(#[trigger] items[k]) is None,
    decreases items.len(),
{
    if items.len() > 0 {
        let rest = items.drop_first();
        lemma_first_found_none(rest, find);
        assert forall|k: int| 0 <= k < items.len() implies find(#[trigger] items[k]) is None by {
            if k > 0 {
                assert(rest[k - 1] == items[k]);
            }
        }
    }
}

} // verus!
