//! Collecting results: the items of a list that each may fail, up to the
//! first that does.

use crate::error::DecodeError;
use vstd::prelude::*;

verus! {

/// The first `n` of the items that `item` gives, or the error of the first
/// that fails.
pub open spec fn collected<T>(item: spec_fn(int) -> Result<T, DecodeError>, n: nat) -> Result<
    Seq<T>,
    DecodeError,
>
    decreases n,
{
    if n == 0 {
        Ok(Seq::empty())
    } else {
        match collected(item, (n - 1) as nat) {
            Err(e) => Err(e),
            Ok(front) => match item(n - 1) {
                Ok(last) => Ok(front.push(last)),
                Err(e) => Err(e),
            },
        }
    }
}

/// `collected` succeeds exactly where every item does, and then holds them
/// in order. Where it fails, some item failed with that error and every
/// item before it succeeded.
pub proof fn lemma_collected<T>(item: spec_fn(int) -> Result<T, DecodeError>, n: nat)
    ensures
        match collected(item, n) {
            Ok(items) => items.len() == n && forall|i: int|
                0 <= i < n ==> #[trigger] item(i) == Ok::<T, DecodeError>(items[i]),
            Err(e) => exists|k: int|
                0 <= k < n && #[trigger] item(k) == Err::<T, DecodeError>(e) && forall|i: int|
                    0 <= i < k ==> (#[trigger] item(i)) is Ok,
        },
    decreases n,
{
    if n > 0 {
        lemma_collected(item, (n - 1) as nat);
    }
}

/// `front` followed by what `rest` holds, or the error of `rest`.
pub open spec fn behind<T>(front: Seq<T>, rest: Result<Seq<T>, DecodeError>) -> Result<
    Seq<T>,
    DecodeError,
> {
    match rest {
        Ok(rest) => Ok(front + rest),
        Err(e) => Err(e),
    }
}

/// Once an item fails behind items that all succeed, collecting more
/// items fails the same way.
pub proof fn lemma_collected_fails<T>(
    item: spec_fn(int) -> Result<T, DecodeError>,
    k: nat,
    n: nat,
)
    requires
        k < n,
        collected(item, k) is Ok,
        item(k as int) is Err,
    ensures
        collected(item, n) == Err::<Seq<T>, DecodeError>(item(k as int)->Err_0),
    decreases n,
{
    if n > k + 1 {
        lemma_collected_fails(item, k, (n - 1) as nat);
    }
}

} // verus!
