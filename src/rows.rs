use vstd::prelude::*;

verus! {

proof fn lemma_filter_step<A>(s: Seq<A>, j: int, keep: spec_fn(A) -> bool)
    requires
        0 <= j < s.len(),
    ensures
        s.subrange(0, j + 1).filter(keep) == (if keep(s[j]) {
            s.subrange(0, j).filter(keep).push(s[j])
        } else {
            s.subrange(0, j).filter(keep)
        }),
{
    reveal(Seq::filter);
    assert(s.subrange(0, j + 1).drop_last() =~= s.subrange(0, j));
}

/// Filtering with a predicate that holds of every element keeps them all.
pub proof fn lemma_filter_keeps_all<A>(s: Seq<A>, keep: spec_fn(A) -> bool)
    requires
        forall|i: int| 0 <= i < s.len() ==> keep(#[trigger] s[i]),
    ensures
        s.filter(keep) == s,
    decreases s.len(),
{
    reveal(Seq::filter);
    if s.len() > 0 {
        lemma_filter_keeps_all(s.drop_last(), keep);
        assert(s.drop_last().push(s.last()) =~= s);
    }
}

/// Filtering with two predicates that agree on every element gives the
/// same result.
pub proof fn lemma_filter_congruent<A>(s: Seq<A>, f: spec_fn(A) -> bool, g: spec_fn(A) -> bool)
    requires
        forall|i: int| 0 <= i < s.len() ==> f(#[trigger] s[i]) == g(s[i]),
    ensures
        s.filter(f) == s.filter(g),
    decreases s.len(),
{
    reveal(Seq::filter);
    if s.len() > 0 {
        lemma_filter_congruent(s.drop_last(), f, g);
        assert(f(s[s.len() - 1]) == g(s[s.len() - 1]));
    }
}

/// Removes in place every row that `drop` picks, keeping the order of the
/// others; true when it removed one.
pub(crate) fn remove_where<T, F: Fn(&T) -> bool>(
    v: &mut Vec<T>,
    drop: F,
    Ghost(keep): Ghost<spec_fn(T) -> bool>,
) -> (removed: bool)
    requires
        forall|x: &T| #[trigger] drop.requires((x,)),
        forall|x: &T, b: bool| drop.ensures((x,), b) ==> b == !keep(*x),
    ensures
        final(v)@ == old(v)@.filter(keep),
        removed == exists|i: int| 0 <= i < old(v)@.len() && !keep(#[trigger] old(v)@[i]),
{
    let ghost before = v@;
    let mut removed = false;
    let mut i: usize = 0;
    let ghost mut j: int = 0;
    while i < v.len()
        invariant
            0 <= i <= v@.len(),
            0 <= j <= before.len(),
            before == old(v)@,
            forall|x: &T| #[trigger] drop.requires((x,)),
            forall|x: &T, b: bool| drop.ensures((x,), b) ==> b == !keep(*x),
            v@.len() - i == before.len() - j,
            v@.subrange(0, i as int) == before.subrange(0, j).filter(keep),
            v@.subrange(i as int, v@.len() as int) == before.subrange(j, before.len() as int),
            removed == exists|k: int| 0 <= k < j && !keep(#[trigger] before[k]),
        decreases v.len() - i,
    {
        proof {
            lemma_filter_step(before, j, keep);
        }
        let ghost cur = v@;
        proof {
            let n = cur.len() as int;
            assert forall|k: int| i <= k < n implies cur[k] == before[j + (k - i)] by {
                assert(cur[k] == cur.subrange(i as int, n)[k - i]);
                assert(before[j + (k - i)] == before.subrange(j, before.len() as int)[k - i]);
            }
        }
        if drop(&v[i]) {
            v.remove(i);
            removed = true;
            proof {
                assert(!keep(before[j]));
                assert(v@.subrange(0, i as int) =~= cur.subrange(0, i as int));
                assert(v@.subrange(i as int, v@.len() as int) =~= before.subrange(j + 1, before.len() as int));
            }
        } else {
            i = i + 1;
            proof {
                assert(keep(before[j]));
                assert(v@.subrange(0, i as int) =~= cur.subrange(0, i - 1).push(cur[i - 1]));
                assert(v@.subrange(i as int, v@.len() as int) =~= before.subrange(j + 1, before.len() as int));
            }
        }
        proof {
            j = j + 1;
        }
    }
    proof {
        assert(v@ =~= v@.subrange(0, i as int));
        assert(before =~= before.subrange(0, j));
    }
    removed
}

} // verus!
