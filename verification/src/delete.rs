//! Deleting recorded runs, one by one.
use vstd::prelude::*;

use crate::error::AilError;

verus! {

/// Where runs are recorded: deletes one run (its database rows and its log
/// file). With `force`, database rows are deleted even when the log file is
/// missing.
pub trait RunStore {
    fn delete_run(&mut self, run_id: &str, force: bool) -> Result<(), AilError>;
}

/// How many of the outcomes are successes.
pub open spec fn ok_count(o: Seq<Result<(), AilError>>) -> nat
    decreases o.len(),
{
    if o.len() == 0 {
        0
    } else {
        ok_count(o.drop_last()) + if o.last() is Ok { 1nat } else { 0nat }
    }
}

/// What deleting gives for the outcomes of the deletes, in order: with
/// `force`, the number of successes; without, the first failure, or the
/// number of outcomes when none failed.
pub open spec fn tally_holds(o: Seq<Result<(), AilError>>, force: bool, r: Result<usize, AilError>) -> bool {
    if force {
        r matches Ok(n) && n == ok_count(o)
    } else {
        match r {
            Ok(n) => n == o.len() && forall|k: int| 0 <= k < o.len() ==> (#[trigger] o[k]) is Ok,
            Err(e) => exists|k: int|
                0 <= k < o.len() && o[k] == Err::<(), AilError>(e) && forall|j: int| 0 <= j < k ==> (#[trigger] o[j]) is Ok,
        }
    }
}

/// The result of deleting runs, from the outcomes of the deletes in the
/// order they were made.
pub fn tally_deletes(outcomes: Vec<Result<(), AilError>>, force: bool) -> (r: Result<usize, AilError>)
    requires
        outcomes@.len() <= usize::MAX,
    ensures
        tally_holds(outcomes@, force, r),
{
    let ghost o = outcomes@;
    let mut count: usize = 0;
    let mut k: usize = 0;
    while k < outcomes.len()
        invariant
            o == outcomes@,
            k <= o.len(),
            o.len() <= usize::MAX,
            count == ok_count(o.take(k as int)),
            count <= k,
            !force ==> count == k,
            !force ==> forall|j: int| 0 <= j < k ==> (#[trigger] o[j]) is Ok,
        decreases o.len() - k,
    {
        assert(o.take(k + 1).drop_last() =~= o.take(k as int));
        assert(o.take(k + 1).last() == o[k as int]);
        if outcomes[k].is_ok() {
            count += 1;
        } else if !force {
            let mut rest = outcomes;
            let failed = rest.remove(k);
            return match failed {
                Err(e) => Err(e),
                Ok(()) => Ok(count),
            };
        }
        k += 1;
    }
    assert(o.take(o.len() as int) =~= o);
    Ok(count)
}

/// Delete several runs, one by one, and return how many were deleted.
///
/// Without `force` the first failure stops the loop and is returned; with
/// `force` failures are skipped and the loop goes on, so the call succeeds.
/// The result is what `tally_holds` gives for the outcomes of the deletes
/// made, the first of them for the first run id and so on.
pub fn delete_runs<S: RunStore>(store: &mut S, run_ids: &[String], force: bool) -> (r: Result<usize, AilError>)
    ensures
        force ==> r is Ok,
        exists|o: Seq<Result<(), AilError>>| {
            &&& o.len() <= run_ids@.len()
            &&& force ==> o.len() == run_ids@.len()
            &&& !force ==> (o.len() == run_ids@.len() || (o.len() > 0 && o.last() is Err))
            &&& tally_holds(o, force, r)
        },
{
    let mut outcomes: Vec<Result<(), AilError>> = Vec::new();
    let mut i: usize = 0;
    let mut stopped = false;
    while i < run_ids.len() && !stopped
        invariant
            i <= run_ids@.len(),
            outcomes@.len() == i,
            stopped ==> !force && i > 0 && outcomes@[i - 1] is Err,
            !force ==> forall|j: int| 0 <= j < i && (j < i - 1 || !stopped) ==> (#[trigger] outcomes@[j]) is Ok,
        decreases run_ids@.len() - i,
    {
        let outcome = store.delete_run(run_ids[i].as_str(), force);
        if !force && outcome.is_err() {
            stopped = true;
        }
        outcomes.push(outcome);
        i += 1;
    }
    let ghost o = outcomes@;
    let r = tally_deletes(outcomes, force);
    proof {
        assert(o.len() <= run_ids@.len());
        assert(force ==> o.len() == run_ids@.len());
        assert(!force ==> (o.len() == run_ids@.len() || (o.len() > 0 && o.last() is Err)));
        assert(tally_holds(o, force, r));
    }
    r
}

} // verus!
