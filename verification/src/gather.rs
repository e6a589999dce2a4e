//! The results of a run of steps, of which the first error ends the run.

use vstd::prelude::*;

verus! {

/// The values of the first `n` results, or the first error among them.
pub open spec fn gather<T, E>(results: Seq<Result<T, E>>, n: int) -> Result<Seq<T>, E>
    decreases n,
{
    if n <= 0 || n > results.len() {
        Ok(Seq::empty())
    } else {
        match gather(results, n - 1) {
            Err(e) => Err(e),
            Ok(before) => match results[n - 1] {
                Err(e) => Err(e),
                Ok(v) => Ok(before.push(v)),
            },
        }
    }
}

/// Once a result is an error, that error stays.
pub proof fn lemma_gather_error_stays<T, E>(results: Seq<Result<T, E>>, n: int, m: int)
    requires
        0 <= n <= m <= results.len(),
        gather(results, n) is Err,
    ensures
        gather(results, m) == gather(results, n),
    decreases m - n,
{
    if n < m {
        lemma_gather_error_stays(results, n, m - 1);
    }
}

/// Where no result is an error, the values are those of the results, one
/// for one.
pub proof fn lemma_gather_ok<T, E>(results: Seq<Result<T, E>>, n: int)
    requires
        0 <= n <= results.len(),
    ensures
        gather(results, n) matches Ok(values) ==> values.len() == n && forall|i: int|
            0 <= i < n ==> results[i] == Ok::<T, E>(#[trigger] values[i]),
        gather(results, n) is Err ==> exists|i: int|
            0 <= i < n && (#[trigger] results[i]) is Err,
    decreases n,
{
    if n > 0 {
        lemma_gather_ok(results, n - 1);
        if gather(results, n - 1) is Ok && results[n - 1] is Err {
            assert(results[n - 1] is Err);
        }
    }
}

/// Where every one of the first `n` results is a value, so is the whole.
pub proof fn lemma_gather_all<T, E>(results: Seq<Result<T, E>>, n: int)
    requires
        0 <= n <= results.len(),
        forall|i: int| 0 <= i < n ==> (#[trigger] results[i]) is Ok,
    ensures
        gather(results, n) is Ok,
    decreases n,
{
    if n > 0 {
        lemma_gather_all(results, n - 1);
    }
}

/// Where every one of the first `n` results is the value at its place, the
/// whole is those values.
pub proof fn lemma_gather_exact<T, E>(results: Seq<Result<T, E>>, values: Seq<T>, n: int)
    requires
        0 <= n <= results.len(),
        n <= values.len(),
        forall|i: int| 0 <= i < n ==> #[trigger] results[i] == Ok::<T, E>(values[i]),
    ensures
        gather(results, n) == Ok::<Seq<T>, E>(values.subrange(0, n)),
    decreases n,
{
    if n > 0 {
        lemma_gather_exact(results, values, n - 1);
        assert(values.subrange(0, n - 1).push(values[n - 1]) =~= values.subrange(0, n));
    } else {
        assert(values.subrange(0, 0) =~= Seq::<T>::empty());
    }
}

/// The first `n` results decide alone what is gathered of them.
pub proof fn lemma_gather_same<T, E>(results: Seq<Result<T, E>>, others: Seq<Result<T, E>>, n: int)
    requires
        0 <= n <= results.len(),
        n <= others.len(),
        forall|i: int| 0 <= i < n ==> results[i] == others[i],
    ensures
        gather(results, n) == gather(others, n),
    decreases n,
{
    if n > 0 {
        lemma_gather_same(results, others, n - 1);
    }
}

} // verus!
