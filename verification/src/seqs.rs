//! Sequences without one of their values, and without repetitions.

use vstd::prelude::*;

verus! {

/// `s` without any occurrence of `x`, in order.
pub open spec fn without<T>(s: Seq<T>, x: T) -> Seq<T> {
    s.filter(|y: T| y != x)
}

/// What is left are the other values, none more often than before.
pub proof fn lemma_without<T>(s: Seq<T>, x: T)
    ensures
        forall|y: T| #[trigger] without(s, x).contains(y) <==> s.contains(y) && y != x,
        s.no_duplicates() ==> without(s, x).no_duplicates(),
        !s.contains(x) ==> without(s, x) == s,
    decreases s.len(),
{
    reveal(Seq::filter);
    if s.len() > 0 {
        let init = s.drop_last();
        let last = s.last();
        lemma_without(init, x);
        assert(s =~= init.push(last));
        assert forall|y: T| #[trigger] without(s, x).contains(y) <==> s.contains(y) && y != x by {
            assert(s.contains(y) <==> init.contains(y) || y == last) by {
                if s.contains(y) {
                    let i = s.index_of(y);
                    if i < init.len() {
                        assert(init[i] == y);
                    }
                }
                if init.contains(y) {
                    let i = init.index_of(y);
                    assert(s[i] == y);
                }
                assert(s[s.len() - 1] == last);
            }
            let rest = without(init, x);
            if last != x {
                assert(without(s, x) == rest.push(last));
                assert(rest.push(last).contains(y) <==> rest.contains(y) || y == last) by {
                    if rest.contains(y) {
                        assert(rest.push(last)[rest.index_of(y)] == y);
                    }
                    assert(rest.push(last)[rest.len() as int] == last);
                }
            }
        }
        if s.no_duplicates() {
            assert(!init.contains(last)) by {
                if init.contains(last) {
                    let i = init.index_of(last);
                    assert(s[i] == s[s.len() - 1]);
                }
            }
            let rest = without(init, x);
            let all = without(s, x);
            assert(init.no_duplicates());
            assert(!rest.contains(last));
            assert forall|i: int, j: int| 0 <= i < j < all.len() implies all[i] != all[j] by {
                assert(rest.contains(rest[i]));
            }
        }
        if !s.contains(x) {
            assert(!init.contains(x)) by {
                if init.contains(x) {
                    assert(s[init.index_of(x)] == x);
                }
            }
            assert(last != x);
        }
    }
}

/// One more value adds itself, unless it is the one that is left out.
pub proof fn lemma_without_step<T>(s: Seq<T>, i: int, x: T)
    requires
        0 <= i < s.len(),
    ensures
        without(s.take(i + 1), x) == (if s[i] != x {
            without(s.take(i), x).push(s[i])
        } else {
            without(s.take(i), x)
        }),
{
    reveal(Seq::filter);
    assert(s.take(i + 1).drop_last() =~= s.take(i));
}

/// `s` with each value kept only where it occurs first.
pub open spec fn distinct<T>(s: Seq<T>) -> Seq<T>
    decreases s.len(),
{
    if s.len() == 0 {
        s
    } else {
        let rest = distinct(s.drop_last());
        if rest.contains(s.last()) {
            rest
        } else {
            rest.push(s.last())
        }
    }
}

/// The values are the same, each of them once.
pub proof fn lemma_distinct<T>(s: Seq<T>)
    ensures
        distinct(s).no_duplicates(),
        forall|x: T| #[trigger] distinct(s).contains(x) <==> s.contains(x),
    decreases s.len(),
{
    if s.len() > 0 {
        let init = s.drop_last();
        let last = s.last();
        let rest = distinct(init);
        lemma_distinct(init);
        assert(s =~= init.push(last));
        assert forall|x: T| #[trigger] distinct(s).contains(x) <==> s.contains(x) by {
            assert(s.contains(x) <==> init.contains(x) || x == last) by {
                if init.contains(x) {
                    assert(s[init.index_of(x)] == x);
                }
                assert(s[s.len() - 1] == last);
                if s.contains(x) {
                    let i = s.index_of(x);
                    if i < init.len() {
                        assert(init[i] == x);
                    }
                }
            }
            if rest.contains(x) {
                assert(rest.push(last)[rest.index_of(x)] == x);
            }
            assert(rest.push(last)[rest.len() as int] == last);
        }
    }
}

/// Leaving a value out goes piece by piece: it drops that value, keeps every other
/// one, and keeps the pieces in order.
pub proof fn law_without_goes_piece_by_piece<T>(a: Seq<T>, b: Seq<T>, x: T, y: T)
    ensures
        without(Seq::<T>::empty(), x) == Seq::<T>::empty(),
        without(seq![y], x) == (if x == y {
            Seq::<T>::empty()
        } else {
            seq![y]
        }),
        without(a + b, x) == without(a, x) + without(b, x),
    decreases b.len(),
{
    reveal(Seq::filter);
    assert(without(Seq::<T>::empty(), x) =~= Seq::<T>::empty());
    assert(seq![y].drop_last() =~= Seq::<T>::empty());
    assert(without(seq![y], x) =~= (if x == y {
        Seq::<T>::empty()
    } else {
        seq![y]
    }));
    if b.len() == 0 {
        assert(a + b =~= a);
        assert(b =~= Seq::<T>::empty());
        assert(without(a, x) + without(b, x) =~= without(a, x));
    } else {
        law_without_goes_piece_by_piece(a, b.drop_last(), x, y);
        assert((a + b).drop_last() =~= a + b.drop_last());
        assert(without(a + b, x) =~= without(a, x) + without(b, x));
    }
}

/// Keeping each value where it occurs first goes value by value: a further value
/// comes last if it is new, and changes nothing if it is not.
pub proof fn law_distinct_keeps_first_occurrences<T>(s: Seq<T>, x: T)
    ensures
        distinct(Seq::<T>::empty()) == Seq::<T>::empty(),
        s.contains(x) ==> distinct(s.push(x)) == distinct(s),
        !s.contains(x) ==> distinct(s.push(x)) == distinct(s).push(x),
{
    lemma_distinct(s);
    assert(s.push(x).drop_last() =~= s);
    assert(distinct(s).contains(x) <==> s.contains(x));
}

} // verus!
