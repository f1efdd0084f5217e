//! Sequences: views of collections, and searching in them.
use vstd::prelude::*;

verus! {

/// The views of the elements.
pub open spec fn views<T: View>(s: Seq<T>) -> Seq<T::V> {
    s.map_values(|x: T| x@)
}

/// The view of an optional value.
pub open spec fn opt_view<T: View>(o: Option<T>) -> Option<T::V> {
    match o {
        Some(x) => Some(x@),
        None => None,
    }
}

/// The view of an optional borrow.
pub open spec fn opt_ref_view<T: View>(o: Option<&T>) -> Option<T::V> {
    match o {
        Some(x) => Some(x@),
        None => None,
    }
}

/// The position of the first element that satisfies `p`; the length of the
/// sequence where none does.
pub open spec fn first_index<T>(s: Seq<T>, p: spec_fn(T) -> bool) -> int
    decreases s.len(),
{
    if s.len() == 0 {
        0
    } else {
        let i = first_index(s.drop_last(), p);
        if i < s.len() - 1 {
            i
        } else if p(s.last()) {
            s.len() - 1
        } else {
            s.len() as int
        }
    }
}

/// What makes an index the first one.
pub proof fn lemma_first_index<T>(s: Seq<T>, p: spec_fn(T) -> bool)
    ensures
        0 <= first_index(s, p) <= s.len(),
        first_index(s, p) < s.len() ==> p(s[first_index(s, p)]),
        forall|j: int| 0 <= j < first_index(s, p) ==> !p(#[trigger] s[j]),
    decreases s.len(),
{
    if s.len() > 0 {
        lemma_first_index(s.drop_last(), p);
        let i = first_index(s.drop_last(), p);
        assert forall|j: int| 0 <= j < first_index(s, p) implies !p(#[trigger] s[j]) by {
            if j < s.len() - 1 {
                assert(s.drop_last()[j] == s[j]);
            }
        }
        if i < s.len() - 1 {
            assert(s.drop_last()[i] == s[i]);
        }
    }
}

/// The first index is the only one with what makes it the first.
pub proof fn lemma_is_first_index<T>(s: Seq<T>, p: spec_fn(T) -> bool, k: int)
    requires
        0 <= k <= s.len(),
        k < s.len() ==> p(s[k]),
        forall|j: int| 0 <= j < k ==> !p(#[trigger] s[j]),
    ensures
        first_index(s, p) == k,
{
    lemma_first_index(s, p);
    let i = first_index(s, p);
    if i < k {
        assert(!p(s[i]));
    } else if k < i {
        assert(!p(s[k]));
    }
}

/// `out` is what `p` selects from `s`, from the positions `at`: these ascend, and
/// they are those at which `p` holds, all of them.
pub open spec fn selects_at<T>(s: Seq<T>, p: spec_fn(T) -> bool, out: Seq<T>, at: Seq<int>) -> bool {
    &&& at.len() == out.len()
    &&& forall|k: int|
        0 <= k < at.len() ==> 0 <= #[trigger] at[k] < s.len() && p(s[at[k]]) && out[k] == s[at[k]]
    &&& forall|j: int, k: int| 0 <= j < k < at.len() ==> #[trigger] at[j] < #[trigger] at[k]
    &&& forall|i: int| 0 <= i < s.len() && p(#[trigger] s[i]) ==> at.contains(i)
}

/// `out` is what `p` selects from `s`: every element for which `p` holds, each as
/// often as it stands there, in order, and nothing else.
pub open spec fn selects<T>(s: Seq<T>, p: spec_fn(T) -> bool, out: Seq<T>) -> bool {
    exists|at: Seq<int>| #[trigger] selects_at(s, p, out, at)
}

/// A filter selects.
pub proof fn lemma_filter_selects<T>(s: Seq<T>, p: spec_fn(T) -> bool) -> (at: Seq<int>)
    ensures
        selects_at(s, p, s.filter(p), at),
        selects(s, p, s.filter(p)),
    decreases s.len(),
{
    reveal(Seq::filter);
    if s.len() == 0 {
        let at = Seq::<int>::empty();
        assert(selects_at(s, p, s.filter(p), at));
        at
    } else {
        let front = s.drop_last();
        let was = lemma_filter_selects(front, p);
        let n = s.len() - 1;
        let at = if p(s[n]) {
            was.push(n)
        } else {
            was
        };
        assert forall|k: int| 0 <= k < at.len() implies 0 <= #[trigger] at[k] < s.len() && p(
            s[at[k]],
        ) && s.filter(p)[k] == s[at[k]] by {
            if k < was.len() {
                assert(at[k] == was[k]);
                assert(front[was[k]] == s[was[k]]);
            }
        }
        assert forall|j: int, k: int| 0 <= j < k < at.len() implies #[trigger] at[j]
            < #[trigger] at[k] by {
            assert(at[j] == was[j]);
            if k < was.len() {
                assert(at[k] == was[k]);
            }
        }
        assert forall|i: int| 0 <= i < s.len() && p(#[trigger] s[i]) implies at.contains(i) by {
            if i < n {
                assert(front[i] == s[i]);
                let k = choose|k: int| 0 <= k < was.len() && was[k] == i;
                assert(at[k] == i);
            } else {
                assert(at[was.len() as int] == n);
            }
        }
        assert(selects_at(s, p, s.filter(p), at));
        at
    }
}

/// What is selected is found in the whole, and what the whole holds and `p`
/// accepts is found in the selection.
pub proof fn lemma_selection<T>(s: Seq<T>, p: spec_fn(T) -> bool, out: Seq<T>)
    requires
        selects(s, p, out),
    ensures
        out.len() <= s.len(),
        forall|k: int| 0 <= k < out.len() ==> p(#[trigger] out[k]) && s.contains(out[k]),
        forall|i: int| 0 <= i < s.len() && p(#[trigger] s[i]) ==> out.contains(s[i]),
{
    let at = choose|at: Seq<int>| #[trigger] selects_at(s, p, out, at);
    assert forall|k: int| 0 <= k < out.len() implies p(#[trigger] out[k]) && s.contains(out[k]) by {
        assert(0 <= at[k] < s.len());
    }
    assert forall|i: int| 0 <= i < s.len() && p(#[trigger] s[i]) implies out.contains(s[i]) by {
        let k = choose|k: int| 0 <= k < at.len() && at[k] == i;
        assert(out[k] == s[at[k]]);
    }
    lemma_ascending(at, s.len() as int);
}

proof fn lemma_ascending(at: Seq<int>, n: int)
    requires
        forall|k: int| 0 <= k < at.len() ==> 0 <= #[trigger] at[k] < n,
        forall|j: int, k: int| 0 <= j < k < at.len() ==> #[trigger] at[j] < #[trigger] at[k],
    ensures
        at.len() <= n || at.len() == 0,
    decreases at.len(),
{
    if at.len() == 1 {
        assert(0 <= at[0] < n);
    } else if at.len() > 1 {
        assert(at[at.len() - 1] < n);
        let front = at.drop_last();
        assert forall|k: int| 0 <= k < front.len() implies 0 <= #[trigger] front[k]
            < at.last() by {
            assert(front[k] == at[k]);
        }
        assert forall|j: int, k: int| 0 <= j < k < front.len() implies #[trigger] front[j]
            < #[trigger] front[k] by {
            assert(front[j] == at[j] && front[k] == at[k]);
        }
        lemma_ascending(front, at.last());
    }
}

/// Nothing is selected from nothing.
pub proof fn lemma_selects_nothing<T>(s: Seq<T>, p: spec_fn(T) -> bool)
    requires
        s.len() == 0,
    ensures
        selects(s, p, Seq::empty()),
{
    assert(selects_at(s, p, Seq::empty(), Seq::empty()));
}

/// `at` holds the positions below `n` at which the flags are `want`: all of them, and
/// in ascending order.
pub open spec fn flagged_at(flags: Seq<bool>, want: bool, n: int, at: Seq<int>) -> bool {
    &&& forall|k: int| 0 <= k < at.len() ==> 0 <= #[trigger] at[k] < n && flags[at[k]] == want
    &&& forall|j: int, k: int| 0 <= j < k < at.len() ==> #[trigger] at[j] < #[trigger] at[k]
    &&& forall|i: int| 0 <= i < n && #[trigger] flags[i] == want ==> at.contains(i)
}

/// `out` is what stands at the positions `at` of `s`.
pub open spec fn stands_from<T>(s: Seq<T>, out: Seq<T>, at: Seq<int>) -> bool {
    &&& at.len() == out.len()
    &&& forall|k: int| 0 <= k < out.len() ==> #[trigger] out[k] == s[at[k]]
}

/// `out` is what stands in `s` where the flags are `want`, in order.
pub open spec fn picks<T>(s: Seq<T>, flags: Seq<bool>, want: bool, out: Seq<T>) -> bool {
    exists|at: Seq<int>| #[trigger]
        flagged_at(flags, want, s.len() as int, at) && stands_from(s, out, at)
}

/// One element more is picked where its flag is the one wanted.
pub proof fn lemma_picks_step<T>(s: Seq<T>, flags: Seq<bool>, want: bool, front: Seq<T>)
    requires
        s.len() > 0,
        picks(s.drop_last(), flags, want, front),
    ensures
        flags[s.len() - 1] == want ==> picks(s, flags, want, front.push(s.last())),
        flags[s.len() - 1] != want ==> picks(s, flags, want, front),
{
    let n = s.len() - 1;
    let was = choose|at: Seq<int>| #[trigger]
        flagged_at(flags, want, n, at) && stands_from(s.drop_last(), front, at);
    let (at, out) = if flags[n] == want {
        (was.push(n), front.push(s.last()))
    } else {
        (was, front)
    };
    assert forall|k: int| 0 <= k < at.len() implies 0 <= #[trigger] at[k] < n + 1 && flags[at[k]]
        == want by {
        if k < was.len() {
            assert(at[k] == was[k]);
        }
    }
    assert forall|j: int, k: int| 0 <= j < k < at.len() implies #[trigger] at[j]
        < #[trigger] at[k] by {
        assert(at[j] == was[j]);
        if k < was.len() {
            assert(at[k] == was[k]);
        }
    }
    assert forall|i: int| 0 <= i < n + 1 && #[trigger] flags[i] == want implies at.contains(i) by {
        if i < n {
            let k = choose|k: int| 0 <= k < was.len() && was[k] == i;
            assert(at[k] == i);
        } else {
            assert(at[was.len() as int] == n);
        }
    }
    assert forall|k: int| 0 <= k < out.len() implies #[trigger] out[k] == s[at[k]] by {
        if k < front.len() {
            assert(out[k] == front[k]);
            assert(front[k] == s.drop_last()[was[k]]);
            assert(at[k] == was[k]);
        }
    }
    assert(flagged_at(flags, want, n + 1, at));
    assert(stands_from(s, out, at));
}

/// Nothing is picked from nothing.
pub proof fn lemma_picks_nothing<T>(flags: Seq<bool>, want: bool)
    ensures
        picks(Seq::<T>::empty(), flags, want, Seq::<T>::empty()),
{
    assert(flagged_at(flags, want, 0, Seq::empty()));
    assert(stands_from(Seq::<T>::empty(), Seq::<T>::empty(), Seq::empty()));
}

} // verus!
