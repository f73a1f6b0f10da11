//! Batch ingestion: persist an ordered sequence of candidate rows with
//! per-row upsert semantics inside one transaction.
//!
//! The batch is best effort per row: a row-level failure is recorded with
//! its original index and the row's hero identifier, and processing
//! continues; the transaction is committed unconditionally after every row
//! was attempted, even when every row failed. Only an empty input (rejected
//! before any transaction is opened) or transaction infrastructure failure
//! fails the whole call.

use vstd::prelude::*;

use crate::error::AppError;
use crate::model::{row_ok, CreateHeroStats};
use crate::store::{upsert_result, StatStore};

verus! {

use crate::model::check_row_ok;
use vstd::string::StringExecFns;

/// One recorded row-level failure of a batch.
pub struct BatchFailure {
    /// Position of the failed row in the submitted batch.
    pub index: usize,
    /// The failed row's hero identifier, for the caller's diagnosis.
    pub hero_id: String,
    /// Description of what the store rejected.
    pub error: String,
}

/// Specification-level image of a [`BatchFailure`].
pub struct FailureModel {
    pub index: int,
    pub hero_id: Seq<char>,
    pub error: Seq<char>,
}

impl View for BatchFailure {
    type V = FailureModel;

    open spec fn view(&self) -> FailureModel {
        FailureModel { index: self.index as int, hero_id: self.hero_id@, error: self.error@ }
    }
}

impl Clone for BatchFailure {
    fn clone(&self) -> (res: Self)
        ensures
            res == *self,
    {
        BatchFailure {
            index: self.index,
            hero_id: self.hero_id.clone(),
            error: self.error.clone(),
        }
    }
}

/// Summary of one ingestion call: how many rows were submitted, how many
/// persisted, and every row-level failure in original input order.
pub struct BatchResult {
    pub total: usize,
    pub successful: usize,
    pub failures: Vec<BatchFailure>,
}

/// What the store reports for a row that fails its non-key constraint.
pub open spec fn row_error_text() -> Seq<char> {
    "null value in column \"hero_id\""@
}

/// What an empty batch is rejected with.
pub open spec fn empty_batch_text() -> Seq<char> {
    "No heroes provided"@
}

/// Table and next free id after ingesting a batch at time `now`: each valid
/// candidate is upserted in input order, each invalid one is skipped.
pub open spec fn ingest_rows(
    rows: Seq<crate::model::HeroStats>,
    next_id: i32,
    batch: Seq<CreateHeroStats>,
    now: i64,
) -> (Seq<crate::model::HeroStats>, i32)
    decreases batch.len(),
{
    if batch.len() == 0 {
        (rows, next_id)
    } else {
        let prev = ingest_rows(rows, next_id, batch.drop_last(), now);
        if row_ok(batch.last()) {
            upsert_result(prev.0, prev.1, batch.last(), now)
        } else {
            prev
        }
    }
}

/// The row-level failures a batch produces, in original input order: one
/// entry per invalid candidate, carrying its index and hero identifier.
pub open spec fn failures_of(batch: Seq<CreateHeroStats>) -> Seq<FailureModel>
    decreases batch.len(),
{
    if batch.len() == 0 {
        seq![]
    } else {
        failures_of(batch.drop_last()) + (if row_ok(batch.last()) {
            seq![]
        } else {
            seq![
                (FailureModel {
                    index: batch.len() - 1,
                    hero_id: batch.last().hero_id@,
                    error: row_error_text(),
                }),
            ]
        })
    }
}

/// A batch never records more failures than it has rows.
pub proof fn lemma_failures_bounded(batch: Seq<CreateHeroStats>)
    ensures
        failures_of(batch).len() <= batch.len(),
    decreases batch.len(),
{
    if batch.len() > 0 {
        lemma_failures_bounded(batch.drop_last());
    }
}

/// Reject an empty batch before any store interaction: this is the
/// precondition check of ingestion, not a row-level failure.
pub fn check_batch_nonempty(batch: &Vec<CreateHeroStats>) -> (r: Result<(), AppError>)
    ensures
        r is Ok <==> batch@.len() > 0,
        r matches Err(e) ==> e matches AppError::Validation { message } && message@
            == empty_batch_text(),
{
    if batch.len() == 0 {
        Err(AppError::Validation { message: String::from_str("No heroes provided") })
    } else {
        Ok(())
    }
}

/// Ingest a batch of candidate rows at time `now`: reject an empty batch
/// outright; otherwise attempt every row in input order — upserting the
/// valid ones on their natural keys, recording each invalid one as a
/// failure — and report totals and failures. No row's failure aborts the
/// batch; the result reflects a commit of exactly the successful rows, even
/// when there were none.
pub fn batch_upload(store: &mut StatStore, batch: &Vec<CreateHeroStats>, now: i64) -> (r: Result<
    BatchResult,
    AppError,
>)
    requires
        old(store).wf(),
        old(store).next_id as int + batch@.len() <= i32::MAX,
    ensures
        final(store).wf(),
        batch@.len() == 0 ==> (*final(store) == *old(store) && (r matches Err(e)
            && e matches AppError::Validation { message } && message@ == empty_batch_text())),
        batch@.len() > 0 ==> (r matches Ok(res) && ({
            let (rows2, nid2) = ingest_rows(old(store).rows@, old(store).next_id, batch@, now);
            &&& final(store).rows@ == rows2
            &&& final(store).next_id == nid2
            &&& res.total == batch@.len()
            &&& res.failures@.len() == failures_of(batch@).len()
            &&& (forall|j: int|
                0 <= j < res.failures@.len() ==> (#[trigger] res.failures@[j])@ == failures_of(
                    batch@,
                )[j])
            &&& res.successful + res.failures@.len() == batch@.len()
        })),
{
    if batch.len() == 0 {
        return Err(AppError::Validation { message: String::from_str("No heroes provided") });
    }
    let ghost rows0 = store.rows@;
    let ghost nid0 = store.next_id;
    let mut failures: Vec<BatchFailure> = Vec::new();
    let mut successful: usize = 0;
    let mut i: usize = 0;
    assert(batch@.take(0) =~= Seq::<CreateHeroStats>::empty());
    while i < batch.len()
        invariant
            store.wf(),
            i <= batch@.len(),
            rows0 == old(store).rows@,
            nid0 == old(store).next_id,
            nid0 as int + batch@.len() <= i32::MAX,
            store.rows@ == ingest_rows(rows0, nid0, batch@.take(i as int), now).0,
            store.next_id == ingest_rows(rows0, nid0, batch@.take(i as int), now).1,
            store.next_id as int <= nid0 as int + i,
            failures@.len() == failures_of(batch@.take(i as int)).len(),
            failures@.len() <= i,
            forall|j: int|
                0 <= j < failures@.len() ==> (#[trigger] failures@[j])@ == failures_of(
                    batch@.take(i as int),
                )[j],
            successful as int == i - failures@.len(),
        decreases batch@.len() - i,
    {
        proof {
            assert(batch@.take(i as int + 1).drop_last() =~= batch@.take(i as int));
            assert(batch@.take(i as int + 1).last() == batch@[i as int]);
        }
        let c = &batch[i];
        if check_row_ok(c) {
            store.upsert(c, now);
            successful = successful + 1;
        } else {
            failures.push(BatchFailure {
                index: i,
                hero_id: c.hero_id.clone(),
                error: String::from_str("null value in column \"hero_id\""),
            });
        }
        i = i + 1;
    }
    assert(batch@.take(batch@.len() as int) =~= batch@);
    proof {
        lemma_failures_bounded(batch@);
    }
    Ok(BatchResult { total: batch.len(), successful: successful, failures: failures })
}

/// The row-level failures of a batch as the live store decided them: one
/// entry per outcome that came back as an error, with the store's message.
pub open spec fn failure_summaries(
    batch: Seq<CreateHeroStats>,
    outcomes: Seq<Result<(), String>>,
) -> Seq<FailureModel>
    decreases outcomes.len(),
{
    if outcomes.len() == 0 || batch.len() != outcomes.len() {
        seq![]
    } else {
        failure_summaries(batch.drop_last(), outcomes.drop_last()) + (match outcomes.last() {
            Ok(_) => seq![],
            Err(msg) => seq![
                (FailureModel {
                    index: outcomes.len() - 1,
                    hero_id: batch.last().hero_id@,
                    error: msg@,
                }),
            ],
        })
    }
}

/// Fold the per-row outcomes the live store reported into one batch
/// summary: totals plus a failure entry, in input order, for every row the
/// store rejected.
pub fn batch_result_from_outcomes(
    batch: &Vec<CreateHeroStats>,
    outcomes: &Vec<Result<(), String>>,
) -> (r: BatchResult)
    requires
        outcomes@.len() == batch@.len(),
    ensures
        r.total == batch@.len(),
        r.failures@.len() == failure_summaries(batch@, outcomes@).len(),
        forall|j: int|
            0 <= j < r.failures@.len() ==> (#[trigger] r.failures@[j])@ == failure_summaries(
                batch@,
                outcomes@,
            )[j],
        r.successful + r.failures@.len() == batch@.len(),
{
    let mut failures: Vec<BatchFailure> = Vec::new();
    let mut successful: usize = 0;
    let mut i: usize = 0;
    assert(batch@.take(0) =~= Seq::<CreateHeroStats>::empty());
    assert(outcomes@.take(0) =~= Seq::<Result<(), String>>::empty());
    while i < outcomes.len()
        invariant
            i <= outcomes@.len(),
            outcomes@.len() == batch@.len(),
            failures@.len() == failure_summaries(batch@.take(i as int), outcomes@.take(
                i as int,
            )).len(),
            failures@.len() <= i,
            forall|j: int|
                0 <= j < failures@.len() ==> (#[trigger] failures@[j])@ == failure_summaries(
                    batch@.take(i as int),
                    outcomes@.take(i as int),
                )[j],
            successful as int == i - failures@.len(),
        decreases outcomes@.len() - i,
    {
        proof {
            assert(batch@.take(i as int + 1).drop_last() =~= batch@.take(i as int));
            assert(outcomes@.take(i as int + 1).drop_last() =~= outcomes@.take(i as int));
            assert(batch@.take(i as int + 1).last() == batch@[i as int]);
            assert(outcomes@.take(i as int + 1).last() == outcomes@[i as int]);
        }
        match &outcomes[i] {
            Ok(_) => {
                successful = successful + 1;
            },
            Err(msg) => {
                failures.push(BatchFailure {
                    index: i,
                    hero_id: batch[i].hero_id.clone(),
                    error: msg.clone(),
                });
            },
        }
        i = i + 1;
    }
    assert(batch@.take(batch@.len() as int) =~= batch@);
    assert(outcomes@.take(outcomes@.len() as int) =~= outcomes@);
    BatchResult { total: batch.len(), successful: successful, failures: failures }
}

} // verus!
