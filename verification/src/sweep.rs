//! The expiration scheduler's decisions: which rows get a deletion timer,
//! with what delay, and how a sweep's outcomes are reported.
//!
//! One sweep reads all rows once, then fans out one independent timer per
//! row whose expiry is still in the future; the timer waits the remaining
//! time and deletes its row by id. A row already at or past its expiry is
//! skipped by the pass and left for a later pass. After dispatching, the
//! sweep joins every timer and reports the first failure it encounters;
//! later failures in the same sweep are not reported, and a deletion that
//! affected zero rows counts as success so that concurrent sweeps stay
//! idempotent.

use vstd::prelude::*;

use crate::errors::ErrorKind;

verus! {

/// One scheduled deletion: the row id and how long to wait before deleting
/// it, in whole seconds.
#[derive(Clone, Copy, Debug, PartialEq, Eq, Structural)]
pub struct ScheduledDeletion {
    pub id: i32,
    pub delay_seconds: u64,
}

/// The deletions one sweep pass schedules for rows read at `now`: one per
/// row with `expires > now`, waiting exactly `expires - now` seconds, in
/// storage order; rows at or past their expiry are skipped.
pub open spec fn sweep_plan(rows: Seq<(i32, i64)>, now: int) -> Seq<ScheduledDeletion>
    decreases rows.len(),
{
    if rows.len() == 0 {
        Seq::empty()
    } else {
        let rest = sweep_plan(rows.drop_last(), now);
        let last = rows.last();
        if last.1 > now {
            rest.push(
                ScheduledDeletion { id: last.0, delay_seconds: (last.1 - now) as u64 },
            )
        } else {
            rest
        }
    }
}

/// Compute the deletions to schedule for the given `(id, expires)` rows at
/// time `now`.
pub fn plan_sweep(rows: &Vec<(i32, i64)>, now: i64) -> (plan: Vec<ScheduledDeletion>)
    ensures
        plan@ == sweep_plan(rows@, now as int),
{
    let mut plan: Vec<ScheduledDeletion> = Vec::new();
    let n = rows.len();
    let mut i: usize = 0;
    proof {
        assert(rows@.take(0) =~= Seq::<(i32, i64)>::empty());
    }
    while i < n
        invariant
            n == rows@.len(),
            0 <= i <= n,
            plan@ == sweep_plan(rows@.take(i as int), now as int),
        decreases n - i,
    {
        let row = rows[i];
        proof {
            assert(rows@.take(i as int + 1).drop_last() =~= rows@.take(i as int));
            assert(rows@.take(i as int + 1).last() == rows@[i as int]);
        }
        if row.1 > now {
            let delay: u64 = ((row.1 as i128) - (now as i128)) as u64;
            plan.push(ScheduledDeletion { id: row.0, delay_seconds: delay });
        }
        i = i + 1;
    }
    proof {
        assert(rows@.take(n as int) =~= rows@);
    }
    plan
}

/// Law: a sweep pass schedules exactly the rows whose expiry is still in the
/// future, in storage order, each waiting exactly its remaining time; a row
/// at or past its expiry contributes nothing to the pass.
pub proof fn lemma_sweep_plan_schedules_future_rows(rows: Seq<(i32, i64)>, now: int)
    ensures
        sweep_plan(rows, now) == rows.filter_map(
            |r: (i32, i64)|
                if r.1 > now {
                    Some(ScheduledDeletion { id: r.0, delay_seconds: (r.1 - now) as u64 })
                } else {
                    None
                },
        ),
    decreases rows.len(),
{
    let to_deletion = |r: (i32, i64)|
        if r.1 > now {
            Some(ScheduledDeletion { id: r.0, delay_seconds: (r.1 - now) as u64 })
        } else {
            None
        };
    if rows.len() == 0 {
        assert(sweep_plan(rows, now) =~= rows.filter_map(to_deletion));
    } else {
        lemma_sweep_plan_schedules_future_rows(rows.drop_last(), now);
        if rows.last().1 > now {
            assert(sweep_plan(rows, now) =~= rows.drop_last().filter_map(to_deletion) + seq![
                ScheduledDeletion {
                    id: rows.last().0,
                    delay_seconds: (rows.last().1 - now) as u64,
                },
            ]);
        }
    }
}

/// The report a sweep owes for the outcomes of its joined deletions: the
/// first failure in dispatch order, or success when every deletion
/// succeeded. The number of rows a deletion affected is ignored: deleting an
/// already-deleted row is success.
pub open spec fn first_failure(outcomes: Seq<Result<usize, ErrorKind>>) -> Result<(), ErrorKind>
    decreases outcomes.len(),
{
    if outcomes.len() == 0 {
        Ok(())
    } else {
        match outcomes.first() {
            Err(e) => Err(e),
            Ok(_) => first_failure(outcomes.drop_first()),
        }
    }
}

/// Reduce the joined outcomes of a sweep's deletions to the sweep's report.
pub fn summarize_outcomes(outcomes: &Vec<Result<usize, ErrorKind>>) -> (r: Result<(), ErrorKind>)
    ensures
        r == first_failure(outcomes@),
{
    let n = outcomes.len();
    let mut i: usize = 0;
    proof {
        assert(outcomes@.skip(0) =~= outcomes@);
    }
    while i < n
        invariant
            n == outcomes@.len(),
            0 <= i <= n,
            first_failure(outcomes@) == first_failure(outcomes@.skip(i as int)),
        decreases n - i,
    {
        proof {
            assert(outcomes@.skip(i as int).first() == outcomes@[i as int]);
            assert(outcomes@.skip(i as int).drop_first() =~= outcomes@.skip(i as int + 1));
        }
        match outcomes[i] {
            Err(e) => {
                return Err(e);
            },
            Ok(_) => {},
        }
        i = i + 1;
    }
    proof {
        assert(outcomes@.skip(n as int) =~= Seq::<Result<usize, ErrorKind>>::empty());
    }
    Ok(())
}

} // verus!
