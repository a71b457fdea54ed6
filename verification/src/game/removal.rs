//! Removing elements of a sequence by index, as the destroyed agents are removed.
use crate::entities::bullet::Bullet;
use crate::entities::tank::Tank;
use crate::systems::collision::fallen;
use vstd::prelude::*;

verus! {

/// The sequence without the elements at the given indices, which are removed from the
/// last index given to the first.
pub open spec fn without<T>(s: Seq<T>, indices: Seq<usize>) -> Seq<T>
    decreases indices.len(),
{
    if indices.len() == 0 {
        s
    } else {
        without(s.remove(indices.last() as int), indices.drop_last())
    }
}

/// The indices rise strictly and all lie below `n`.
pub open spec fn ascending_below(indices: Seq<usize>, n: int) -> bool {
    &&& forall|i: int, j: int| 0 <= i < j < indices.len() ==> indices[i] < indices[j]
    &&& forall|i: int| 0 <= i < indices.len() ==> indices[i] < n
}

/// The indices of the destroyed agents rise strictly and lie below the number of agents
/// looked at.
pub proof fn lemma_fallen_ascending(n: int, bullets: Seq<Bullet>, player: Tank, tanks: Seq<Tank>)
    requires
        0 <= n <= tanks.len(),
        n <= usize::MAX,
    ensures
        ascending_below(fallen(n, bullets, player, tanks), n),
        fallen(n, bullets, player, tanks).len() <= n,
    decreases n,
{
    if n > 0 {
        lemma_fallen_ascending(n - 1, bullets, player, tanks);
    }
}

/// Removing the same indices from two sequences of one length keeps together what
/// stood at the same index: the pairs left are the pairs of what is left.
pub proof fn lemma_removal_keeps_pairs<A, B>(a: Seq<A>, b: Seq<B>, indices: Seq<usize>)
    requires
        a.len() == b.len(),
        ascending_below(indices, a.len() as int),
    ensures
        without(a, indices).len() == without(b, indices).len(),
        without(a, indices).len() == a.len() - indices.len(),
        without(a.zip_with(b), indices) == without(a, indices).zip_with(without(b, indices)),
    decreases indices.len(),
{
    if indices.len() > 0 {
        let at = indices.last() as int;
        let rest = indices.drop_last();
        assert(indices[indices.len() - 1] < a.len());
        assert forall|i: int| 0 <= i < rest.len() implies rest[i] < a.len() - 1 by {
            assert(indices[i] < indices[indices.len() - 1]);
        }
        lemma_removal_keeps_pairs(a.remove(at), b.remove(at), rest);
        assert(a.zip_with(b).remove(at) =~= a.remove(at).zip_with(b.remove(at)));
    } else {
        assert(a.zip_with(b).len() == a.len());
    }
}

/// What is left after a removal was there before, so a property of every element
/// before holds of every element left.
pub proof fn lemma_without_subset<T>(s: Seq<T>, indices: Seq<usize>, p: spec_fn(T) -> bool)
    requires
        ascending_below(indices, s.len() as int),
        forall|i: int| 0 <= i < s.len() ==> p(#[trigger] s[i]),
    ensures
        forall|i: int| 0 <= i < without(s, indices).len() ==> p(#[trigger] without(s, indices)[i]),
    decreases indices.len(),
{
    if indices.len() > 0 {
        let at = indices.last() as int;
        let rest = indices.drop_last();
        let cut = s.remove(at);
        assert(indices[indices.len() - 1] < s.len());
        assert(cut.len() == s.len() - 1);
        assert forall|i: int| 0 <= i < rest.len() implies rest[i] < cut.len() by {
            assert(indices[i] < indices[indices.len() - 1]);
        }
        assert forall|i: int| 0 <= i < cut.len() implies p(#[trigger] cut[i]) by {
            if i < at {
                assert(cut[i] == s[i]);
            } else {
                assert(cut[i] == s[i + 1]);
            }
        }
        assert forall|i: int, j: int| 0 <= i < j < rest.len() implies rest[i] < rest[j] by {
            assert(indices[i] < indices[j]);
        }
        assert(ascending_below(rest, cut.len() as int));
        lemma_without_subset(cut, rest, p);
        assert(without(s, indices) == without(cut, rest));
    }
}

/// The numbers rise strictly and all lie in `0..n`.
pub open spec fn rising(m: Seq<int>, n: int) -> bool {
    &&& forall|i: int, j: int| 0 <= i < j < m.len() ==> #[trigger] m[i] < #[trigger] m[j]
    &&& forall|i: int| 0 <= i < m.len() ==> 0 <= #[trigger] m[i] < n
}

/// The indices below `n` that are left when the given indices are removed, in rising
/// order: element `j` is where the element that ends at place `j` stood before.
pub open spec fn kept(n: nat, indices: Seq<usize>) -> Seq<int> {
    without(Seq::new(n, |i: int| i), indices)
}

/// Where every element of `s` is the element of `base` at the place that `m` names,
/// the same holds of what a removal leaves of `s` and of `m`, and the places named
/// still rise.
pub proof fn lemma_removal_follows<T>(base: Seq<T>, s: Seq<T>, m: Seq<int>, indices: Seq<usize>)
    requires
        s.len() == m.len(),
        ascending_below(indices, s.len() as int),
        rising(m, base.len() as int),
        forall|j: int| 0 <= j < s.len() ==> #[trigger] s[j] == base[m[j]],
    ensures
        without(s, indices).len() == without(m, indices).len(),
        without(s, indices).len() == s.len() - indices.len(),
        rising(without(m, indices), base.len() as int),
        forall|j: int|
            0 <= j < without(s, indices).len() ==> #[trigger] without(s, indices)[j]
                == base[without(m, indices)[j]],
    decreases indices.len(),
{
    if indices.len() > 0 {
        let at = indices.last() as int;
        let rest = indices.drop_last();
        assert(indices[indices.len() - 1] < s.len());
        let s1 = s.remove(at);
        let m1 = m.remove(at);
        assert forall|i: int| 0 <= i < rest.len() implies rest[i] < s1.len() by {
            assert(indices[i] < indices[indices.len() - 1]);
        }
        assert forall|i: int, j: int| 0 <= i < j < rest.len() implies rest[i] < rest[j] by {
            assert(indices[i] < indices[j]);
        }
        assert forall|j: int| 0 <= j < s1.len() implies #[trigger] s1[j] == base[m1[j]] by {
            if j < at {
                assert(s1[j] == s[j] && m1[j] == m[j]);
            } else {
                assert(s1[j] == s[j + 1] && m1[j] == m[j + 1]);
            }
        }
        assert forall|i: int, j: int| 0 <= i < j < m1.len() implies #[trigger] m1[i]
            < #[trigger] m1[j] by {
            let a = if i < at {
                i
            } else {
                i + 1
            };
            let b = if j < at {
                j
            } else {
                j + 1
            };
            assert(m1[i] == m[a] && m1[j] == m[b]);
            assert(m[a] < m[b]);
        }
        assert forall|i: int| 0 <= i < m1.len() implies 0 <= #[trigger] m1[i] < base.len() by {
            let a = if i < at {
                i
            } else {
                i + 1
            };
            assert(m1[i] == m[a]);
        }
        lemma_removal_follows(base, s1, m1, rest);
    }
}

/// What a removal leaves of a sequence is, place by place, what stood at the indices
/// kept, which rise strictly: the removal changes no order and mixes nothing up.
pub proof fn lemma_survivors<T>(s: Seq<T>, indices: Seq<usize>)
    requires
        ascending_below(indices, s.len() as int),
    ensures
        kept(s.len(), indices).len() == without(s, indices).len(),
        without(s, indices).len() == s.len() - indices.len(),
        rising(kept(s.len(), indices), s.len() as int),
        forall|j: int|
            0 <= j < without(s, indices).len() ==> #[trigger] without(s, indices)[j] == s[kept(
                s.len(),
                indices,
            )[j]],
{
    let all = Seq::new(s.len(), |i: int| i);
    lemma_removal_follows(s, s, all, indices);
}

} // verus!
