//! Cutting a sequence into runs of one length.
use vstd::prelude::*;

verus! {

/// The runs of `n` that a sequence makes, and what is left over.
pub open spec fn cut<T>(s: Seq<T>, n: int) -> (Seq<Seq<T>>, Seq<T>)
    decreases s.len(),
{
    if n <= 0 || s.len() < n {
        (seq![], s)
    } else {
        let (runs, rest) = cut(s.skip(n), n);
        (seq![s.take(n)] + runs, rest)
    }
}

/// Sequences one after the other.
pub open spec fn joined<T>(runs: Seq<Seq<T>>) -> Seq<T>
    decreases runs.len(),
{
    if runs.len() == 0 {
        seq![]
    } else {
        runs[0] + joined(runs.skip(1))
    }
}

/// How the elements arrive makes no difference to the runs.
pub proof fn law_cut_in_pieces<T>(s: Seq<T>, more: Seq<T>, n: int)
    ensures
        ({
            let (first, rest) = cut(s, n);
            let (second, end) = cut(rest + more, n);
            cut(s + more, n) == (first + second, end)
        }),
    decreases s.len(),
{
    let (first, rest) = cut(s, n);
    let (second, end) = cut(rest + more, n);
    if n <= 0 || s.len() < n {
        assert(first + second =~= second);
    } else {
        law_cut_in_pieces(s.skip(n), more, n);
        let all = s + more;
        assert(all.take(n) =~= s.take(n));
        assert(all.skip(n) =~= s.skip(n) + more);
        let (runs, _) = cut(s.skip(n), n);
        assert(seq![s.take(n)] + (runs + second) =~= (seq![s.take(n)] + runs) + second);
    }
}

/// The runs and what is left over make up the sequence; every run has the one
/// length, and less than a run is left over.
pub proof fn law_cut_keeps_everything<T>(s: Seq<T>, n: int)
    requires
        n > 0,
    ensures
        ({
            let (runs, rest) = cut(s, n);
            &&& joined(runs) + rest == s
            &&& rest.len() < n
            &&& forall|i: int| 0 <= i < runs.len() ==> (#[trigger] runs[i]).len() == n
        }),
    decreases s.len(),
{
    if s.len() >= n {
        law_cut_keeps_everything(s.skip(n), n);
        let (runs, rest) = cut(s.skip(n), n);
        let all = seq![s.take(n)] + runs;
        assert(all.skip(1) =~= runs);
        assert(s.take(n) + joined(runs) + rest =~= s) by {
            assert(joined(runs) + rest == s.skip(n));
            assert(s.take(n) + joined(runs) + rest =~= s.take(n) + (joined(runs) + rest));
        }
    } else {
        assert(joined(Seq::<Seq<T>>::empty()) + s =~= s);
    }
}

} // verus!
