//! What the two loaders share: outcomes that carry resolved values, as the
//! contracts see them.

use vstd::prelude::*;
use crate::batch::{BatchResult, Outcome};
use crate::value::{Value, ValueView};

verus! {

/// The outcome for one key as the contracts see it.
pub enum OutcomeView {
    Success(ValueView),
    Failure(Seq<char>),
}

impl View for Outcome<Value> {
    type V = OutcomeView;

    open spec fn view(&self) -> OutcomeView {
        match self {
            Outcome::Success(value) => OutcomeView::Success(value@),
            Outcome::Failure(message) => OutcomeView::Failure(message@),
        }
    }
}

/// The views of the outcomes of `outcomes`, in order.
pub open spec fn outcome_views(outcomes: Seq<Outcome<Value>>) -> Seq<OutcomeView> {
    Seq::new(outcomes.len(), |i: int| outcomes[i]@)
}

/// The result of the upstream work for a batch as the contracts see it.
pub enum BatchResultView {
    Keyed(Seq<OutcomeView>),
    Failed(Seq<char>),
}

impl View for BatchResult<Value> {
    type V = BatchResultView;

    open spec fn view(&self) -> BatchResultView {
        match self {
            BatchResult::Keyed(outcomes) => BatchResultView::Keyed(outcome_views(outcomes@)),
            BatchResult::Failed(message) => BatchResultView::Failed(message@),
        }
    }
}

/// What one upstream call of its own means for the key that it was made
/// for: the value that came back, or the failure of that call.
pub open spec fn call_outcome(response: Result<Value, String>) -> OutcomeView {
    match response {
        Ok(value) => OutcomeView::Success(value@),
        Err(message) => OutcomeView::Failure(message@),
    }
}

/// Gathers the results of one upstream call per key into the result of the
/// batch. Each key gets the outcome of its own call: a call that failed is a
/// failure of its key and of no other.
pub fn collect_calls(responses: &Vec<Result<Value, String>>) -> (result: BatchResult<Value>)
    ensures
        result@ matches BatchResultView::Keyed(outcomes) && outcomes.len() == responses@.len()
            && forall|i: int|
            0 <= i < responses@.len() ==> outcomes[i] == call_outcome(#[trigger] responses@[i]),
{
    let mut outcomes: Vec<Outcome<Value>> = Vec::new();
    let mut i: usize = 0;
    while i < responses.len()
        invariant
            i <= responses.len(),
            outcomes@.len() == i,
            forall|j: int| 0 <= j < i ==> (#[trigger] outcomes@[j])@ == call_outcome(responses@[j]),
        decreases responses.len() - i,
    {
        let outcome = match &responses[i] {
            Ok(value) => Outcome::Success(value.duplicate()),
            Err(message) => Outcome::Failure(message.clone()),
        };
        outcomes.push(outcome);
        i += 1;
    }
    BatchResult::Keyed(outcomes)
}

} // verus!
