//! Rebuilding the relational data from cached raw responses: each cached
//! entry is decoded and extracted on its own, and an entry that fails is
//! reported and skipped without stopping the others.
use vstd::prelude::*;

use crate::document::AnalyzeResultOperation;
use crate::extract::{
    extract_receipt, extraction_matches, receipt_of, ExtractError, ExtractedReceipt, LineView,
};
use crate::timestamp::PaidAt;

verus! {

/// Why one cached entry gave no receipt.
#[derive(Debug, Clone, Copy, PartialEq, Eq, Structural)]
pub enum EntryFailure {
    /// The cached text is not an analysis result.
    Undecodable,
    /// The analysis result gives no receipt.
    Unextractable(ExtractError),
}

/// What one cached entry gives: a receipt to persist, or the reason it gives
/// none. `None` stands for an entry whose text did not decode.
pub open spec fn entry_outcome(entry: Option<AnalyzeResultOperation>) -> Result<
    (Seq<char>, PaidAt, Seq<LineView>),
    EntryFailure,
> {
    match entry {
        None => Err(EntryFailure::Undecodable),
        Some(op) => match receipt_of(op) {
            Ok(v) => Ok(v),
            Err(e) => Err(EntryFailure::Unextractable(e)),
        },
    }
}

pub open spec fn outcome_matches(
    r: Result<ExtractedReceipt, EntryFailure>,
    entry: Option<AnalyzeResultOperation>,
) -> bool {
    match r {
        Ok(e) => entry_outcome(entry) == Ok::<_, EntryFailure>(e@),
        Err(f) => entry_outcome(entry) == Err::<(Seq<char>, PaidAt, Seq<LineView>), _>(f),
    }
}

/// How many entries give a receipt.
pub open spec fn receipts_given(entries: Seq<Option<AnalyzeResultOperation>>) -> nat
    decreases entries.len(),
{
    if entries.len() == 0 {
        0
    } else {
        receipts_given(entries.drop_last()) + if entry_outcome(entries.last()) is Ok {
            1nat
        } else {
            0nat
        }
    }
}

/// How many entries did not decode.
pub open spec fn undecodable(entries: Seq<Option<AnalyzeResultOperation>>) -> nat
    decreases entries.len(),
{
    if entries.len() == 0 {
        0
    } else {
        undecodable(entries.drop_last()) + if entries.last() is None {
            1nat
        } else {
            0nat
        }
    }
}

/// How many outcomes are receipts.
pub open spec fn successes(outcomes: Seq<Result<ExtractedReceipt, EntryFailure>>) -> nat
    decreases outcomes.len(),
{
    if outcomes.len() == 0 {
        0
    } else {
        successes(outcomes.drop_last()) + if outcomes.last() is Ok {
            1nat
        } else {
            0nat
        }
    }
}

/// The outcome of each cached entry, in order: one failing entry does not
/// keep the others from giving their receipts.
pub fn repopulation_outcomes(entries: Vec<Option<AnalyzeResultOperation>>) -> (r: Vec<
    Result<ExtractedReceipt, EntryFailure>,
>)
    ensures
        r@.len() == entries@.len(),
        forall|i: int| 0 <= i < entries@.len() ==> outcome_matches(#[trigger] r@[i], entries@[i]),
        successes(r@) == receipts_given(entries@),
{
    let mut out: Vec<Result<ExtractedReceipt, EntryFailure>> = Vec::new();
    let mut i: usize = 0;
    while i < entries.len()
        invariant
            i <= entries.len(),
            out@.len() == i,
            forall|k: int| 0 <= k < i ==> outcome_matches(#[trigger] out@[k], entries@[k]),
            successes(out@) == receipts_given(entries@.subrange(0, i as int)),
        decreases entries.len() - i,
    {
        let outcome = match &entries[i] {
            None => Err(EntryFailure::Undecodable),
            Some(op) => match extract_receipt(op) {
                Ok(e) => Ok(e),
                Err(e) => Err(EntryFailure::Unextractable(e)),
            },
        };
        let ghost before = out@;
        out.push(outcome);
        assert(entries@.subrange(0, i + 1).drop_last() =~= entries@.subrange(0, i as int));
        assert(out@.drop_last() =~= before);
        assert(outcome_matches(out@[i as int], entries@[i as int]));
        i = i + 1;
    }
    assert(entries@.subrange(0, entries.len() as int) =~= entries@);
    out
}

/// Counts the outcomes that are receipts.
pub fn count_successes(outcomes: &Vec<Result<ExtractedReceipt, EntryFailure>>) -> (r: usize)
    ensures
        r == successes(outcomes@),
{
    let mut n: usize = 0;
    let mut i: usize = 0;
    while i < outcomes.len()
        invariant
            i <= outcomes.len(),
            n == successes(outcomes@.subrange(0, i as int)),
            n <= i,
        decreases outcomes.len() - i,
    {
        assert(outcomes@.subrange(0, i + 1).drop_last() =~= outcomes@.subrange(0, i as int));
        if outcomes[i].is_ok() {
            n = n + 1;
        }
        i = i + 1;
    }
    assert(outcomes@.subrange(0, outcomes.len() as int) =~= outcomes@);
    n
}

/// Of N cached entries, M of which do not decode while every other one gives
/// a receipt, exactly N - M receipts come out; the M failures stop nothing.
pub proof fn lemma_failures_skipped(entries: Seq<Option<AnalyzeResultOperation>>)
    requires
        forall|i: int|
            0 <= i < entries.len() && #[trigger] entries[i] is Some ==> receipt_of(
                entries[i]->0,
            ) is Ok,
    ensures
        receipts_given(entries) == entries.len() - undecodable(entries),
    decreases entries.len(),
{
    if entries.len() > 0 {
        let init = entries.drop_last();
        assert forall|i: int| 0 <= i < init.len() && #[trigger] init[i] is Some implies receipt_of(
            init[i]->0,
        ) is Ok by {
            assert(init[i] == entries[i]);
        }
        lemma_failures_skipped(init);
        assert(entries.last() == entries[entries.len() - 1]);
    }
}

} // verus!
