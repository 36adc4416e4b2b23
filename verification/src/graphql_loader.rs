//! The GraphQL batch loader: coalesces the upstream queries of resolvers.
//!
//! The key of a demand is the text of its query, as the selection formatter
//! writes it. With batch requests the distinct queries of a batch travel in
//! one document, each under an alias of its own, and the one answer is told
//! apart by alias. Without them every distinct query travels alone.

use vstd::prelude::*;
use crate::batch::{Batch, BatchPolicy, BatchResult, BatchScheduler, Outcome, Ticket, submit_step};
use crate::loader::{BatchResultView, OutcomeView};
use crate::selection::{SelectionField, TypeSubgraphs, format_selection_field, meta_view, render_field, text_view};
use crate::text::{find_first, join, join_strings, lemma_find_first_at, lemma_find_first_none, same_text, views};
use crate::value::{Value, ValueView, entry_value, find_entry};

verus! {

/// An error that an upstream reports inside its answer. The path names the
/// selection that the error is about, top-level selection first; an error
/// without a path is about the whole document.
#[derive(Clone, Debug, PartialEq, Eq)]
pub struct GraphqlError {
    pub message: String,
    pub path: Vec<String>,
}

/// The answer of an upstream to one document.
#[derive(Debug, PartialEq, Eq)]
pub struct GraphqlResponse {
    pub data: Option<Value>,
    pub errors: Vec<GraphqlError>,
}

/// The GraphQL batch loader of one resolver field.
#[derive(Clone, Copy, Debug, PartialEq, Eq)]
pub struct GraphqlBatchLoader {
    pub use_batch_request: bool,
    pub policy: BatchPolicy,
}

/// The text of one decimal digit.
pub open spec fn digit_text(d: nat) -> Seq<char> {
    if d == 0 {
        "0"@
    } else if d == 1 {
        "1"@
    } else if d == 2 {
        "2"@
    } else if d == 3 {
        "3"@
    } else if d == 4 {
        "4"@
    } else if d == 5 {
        "5"@
    } else if d == 6 {
        "6"@
    } else if d == 7 {
        "7"@
    } else if d == 8 {
        "8"@
    } else {
        "9"@
    }
}

/// A number written in decimal, without leading zeros.
pub open spec fn decimal(n: nat) -> Seq<char>
    decreases n,
{
    if n < 10 {
        digit_text(n)
    } else {
        decimal(n / 10) + digit_text(n % 10)
    }
}

/// The alias under which the query of the key at `position` travels.
pub open spec fn alias_of(position: nat) -> Seq<char> {
    "k"@ + decimal(position)
}

/// The queries of a batch, each behind its alias.
pub open spec fn aliased(queries: Seq<Seq<char>>) -> Seq<Seq<char>> {
    Seq::new(queries.len(), |i: int| alias_of(i as nat) + ": "@ + queries[i])
}

/// A query document with the given top-level selections.
pub open spec fn document(selections: Seq<Seq<char>>) -> Seq<char> {
    "query { "@ + join(selections, " "@) + " }"@
}

/// The documents that are sent for the distinct queries of a batch: one
/// document with all of them under their aliases, or one document for each.
/// Nothing is sent for no queries.
pub open spec fn documents_of(use_batch_request: bool, queries: Seq<Seq<char>>) -> Seq<Seq<char>> {
    if use_batch_request {
        if queries.len() == 0 {
            Seq::empty()
        } else {
            seq![document(aliased(queries))]
        }
    } else {
        Seq::new(queries.len(), |i: int| document(seq![queries[i]]))
    }
}

/// Selects the errors that are about the selection under `alias`: those
/// whose path starts there, and those without a path.
pub open spec fn concerns(alias: Seq<char>) -> spec_fn(GraphqlError) -> bool {
    |e: GraphqlError| e.path@.len() == 0 || e.path@[0]@ == alias
}

/// What a shared answer means for the key that travelled under `alias`. The
/// first error that is about it fails this key, and this key alone.
/// Otherwise the key succeeds with what the data hold under the alias, or
/// with null where they hold nothing.
pub open spec fn alias_outcome(response: GraphqlResponse, alias: Seq<char>) -> OutcomeView {
    match find_first(response.errors@, concerns(alias)) {
        Some(e) => OutcomeView::Failure(e.message@),
        None => match response.data {
            Some(data) => match data@ {
                ValueView::Object(entries) => match entry_value(entries, alias) {
                    Some(v) => OutcomeView::Success(v),
                    None => OutcomeView::Success(ValueView::Null),
                },
                _ => OutcomeView::Success(ValueView::Null),
            },
            None => OutcomeView::Success(ValueView::Null),
        },
    }
}

/// What an answer of its own means for a key: the first error fails it,
/// otherwise it succeeds with the data, or with null where there are none.
pub open spec fn own_outcome(response: GraphqlResponse) -> OutcomeView {
    if response.errors@.len() > 0 {
        OutcomeView::Failure(response.errors@[0].message@)
    } else {
        match response.data {
            Some(data) => OutcomeView::Success(data@),
            None => OutcomeView::Success(ValueView::Null),
        }
    }
}

/// What one upstream call of its own means for the key that it was made
/// for: a call that could not be completed fails that key.
pub open spec fn query_outcome(response: Result<GraphqlResponse, String>) -> OutcomeView {
    match response {
        Ok(answer) => own_outcome(answer),
        Err(message) => OutcomeView::Failure(message@),
    }
}

/// The text of one decimal digit.
fn digit(d: usize) -> (text: &'static str)
    requires
        d < 10,
    ensures
        text@ == digit_text(d as nat),
{
    if d == 0 {
        "0"
    } else if d == 1 {
        "1"
    } else if d == 2 {
        "2"
    } else if d == 3 {
        "3"
    } else if d == 4 {
        "4"
    } else if d == 5 {
        "5"
    } else if d == 6 {
        "6"
    } else if d == 7 {
        "7"
    } else if d == 8 {
        "8"
    } else {
        "9"
    }
}

/// Writes a number in decimal.
pub fn render_index(n: usize) -> (text: String)
    ensures
        text@ == decimal(n as nat),
    decreases n,
{
    if n < 10 {
        String::from_str(digit(n))
    } else {
        let mut text = render_index(n / 10);
        text.append(digit(n % 10));
        text
    }
}

/// Writes the alias of the key at `position`.
pub fn alias(position: usize) -> (text: String)
    ensures
        text@ == alias_of(position as nat),
{
    let mut text = String::from_str("k");
    let number = render_index(position);
    text.append(number.as_str());
    text
}

/// Writes a document around selections that are already joined.
fn wrap_document(selections: &str) -> (text: String)
    ensures
        text@ == "query { "@ + selections@ + " }"@,
{
    let mut text = String::from_str("query { ");
    text.append(selections);
    text.append(" }");
    text
}

/// Finds the first error that is about the selection under `alias`.
pub fn find_error<'a>(errors: &'a Vec<GraphqlError>, alias: &str) -> (r: Option<&'a GraphqlError>)
    ensures
        match r {
            Some(e) => find_first(errors@, concerns(alias@)) == Some(*e),
            None => find_first(errors@, concerns(alias@)) is None,
        },
{
    let mut i: usize = 0;
    while i < errors.len()
        invariant
            i <= errors.len(),
            forall|j: int| 0 <= j < i ==> !concerns(alias@)(#[trigger] errors@[j]),
        decreases errors.len() - i,
    {
        let about = if errors[i].path.len() == 0 {
            true
        } else {
            same_text(errors[i].path[0].as_str(), alias)
        };
        if about {
            proof {
                lemma_find_first_at(errors@, concerns(alias@), i as int);
            }
            return Some(&errors[i]);
        }
        i += 1;
    }
    proof {
        lemma_find_first_none(errors@, concerns(alias@));
    }
    None
}

/// Reads from a shared answer the outcome of the key that travelled under
/// `alias`.
pub fn outcome_under(response: &GraphqlResponse, alias: &str) -> (outcome: Outcome<Value>)
    ensures
        outcome@ == alias_outcome(*response, alias@),
{
    match find_error(&response.errors, alias) {
        Some(e) => Outcome::Failure(e.message.clone()),
        None => match &response.data {
            Some(Value::Object(entries)) => match find_entry(entries, alias) {
                Some(v) => Outcome::Success(v.duplicate()),
                None => Outcome::Success(Value::Null),
            },
            _ => Outcome::Success(Value::Null),
        },
    }
}

/// Reads the outcome of a key from an answer of its own.
pub fn outcome_of(response: &Result<GraphqlResponse, String>) -> (outcome: Outcome<Value>)
    ensures
        outcome@ == query_outcome(*response),
{
    match response {
        Ok(answer) => {
            if answer.errors.len() > 0 {
                Outcome::Failure(answer.errors[0].message.clone())
            } else {
                match &answer.data {
                    Some(data) => Outcome::Success(data.duplicate()),
                    None => Outcome::Success(Value::Null),
                }
            }
        },
        Err(message) => Outcome::Failure(message.clone()),
    }
}

impl GraphqlBatchLoader {
    /// A loader that merges the queries of a batch into one document, or
    /// does not, with the policy of its batches.
    pub fn new(use_batch_request: bool, policy: BatchPolicy) -> (loader: GraphqlBatchLoader)
        ensures
            loader.use_batch_request == use_batch_request,
            loader.policy == policy,
    {
        GraphqlBatchLoader { use_batch_request, policy }
    }

    /// The batch key of a demand: the text of its query for the subgraph at
    /// `url`, which asks only for what that subgraph can resolve.
    pub fn batch_key(
        &self,
        field: &SelectionField,
        type_subgraph_fields: Option<&Vec<TypeSubgraphs>>,
        field_type: Option<&str>,
        url: &str,
    ) -> (key: String)
        ensures
            key@ == render_field(
                *field,
                meta_view(type_subgraph_fields),
                text_view(field_type),
                url@,
            ),
    {
        format_selection_field(field, type_subgraph_fields, field_type, url)
    }

    /// Registers a demand for the answer to `query` at time `now`.
    pub fn load(&self, scheduler: &mut BatchScheduler, query: String, now: u64) -> (r: (
        Ticket,
        Option<Batch>,
    ))
        ensures
            old(scheduler).wf(),
            final(scheduler).wf(),
            final(scheduler)@ == submit_step(old(scheduler)@, query@, now).next,
            r.0 == submit_step(old(scheduler)@, query@, now).ticket,
            match r.1 {
                Some(batch) => submit_step(old(scheduler)@, query@, now).closed == Some(batch@),
                None => submit_step(old(scheduler)@, query@, now).closed is None,
            },
    {
        scheduler.submit(query, now)
    }

    /// Writes the documents that are sent for the distinct queries of a
    /// batch, in the order of its keys.
    pub fn documents(&self, queries: &Vec<String>) -> (texts: Vec<String>)
        ensures
            views(texts@) == documents_of(self.use_batch_request, views(queries@)),
    {
        let mut texts: Vec<String> = Vec::new();
        if self.use_batch_request {
            if queries.len() == 0 {
                assert(views(texts@) =~= Seq::empty());
                return texts;
            }
            let ghost wanted = aliased(views(queries@));
            let mut parts: Vec<String> = Vec::new();
            let mut i: usize = 0;
            while i < queries.len()
                invariant
                    i <= queries.len(),
                    wanted == aliased(views(queries@)),
                    views(parts@) == wanted.take(i as int),
                decreases queries.len() - i,
            {
                let mut part = alias(i);
                part.append(": ");
                part.append(queries[i].as_str());
                assert(part@ =~= wanted[i as int]);
                let ghost before = views(parts@);
                parts.push(part);
                assert(views(parts@) =~= before.push(part@));
                assert(before.push(part@) =~= wanted.take(i as int + 1));
                i += 1;
            }
            assert(wanted.take(queries.len() as int) =~= wanted);
            let joined = join_strings(&parts, " ");
            texts.push(wrap_document(joined.as_str()));
            assert(views(texts@) =~= seq![document(wanted)]);
            texts
        } else {
            let ghost wanted = documents_of(false, views(queries@));
            let mut i: usize = 0;
            while i < queries.len()
                invariant
                    i <= queries.len(),
                    wanted == documents_of(false, views(queries@)),
                    views(texts@) == wanted.take(i as int),
                decreases queries.len() - i,
            {
                let text = wrap_document(queries[i].as_str());
                assert(join(seq![queries@[i as int]@], " "@) == queries@[i as int]@);
                assert(text@ == wanted[i as int]);
                let ghost before = views(texts@);
                texts.push(text);
                assert(views(texts@) =~= before.push(text@));
                assert(before.push(text@) =~= wanted.take(i as int + 1));
                i += 1;
            }
            assert(wanted.take(queries.len() as int) =~= wanted);
            texts
        }
    }

    /// What the one call for a merged batch of `count` keys came to. A call
    /// that could not be completed fails the batch as a whole, for every key
    /// alike. An answer that was received is read key by key, each under its
    /// alias: an error inside it fails the key that it is about and no
    /// other.
    pub fn collect_merged(&self, count: usize, response: &Result<GraphqlResponse, String>) -> (result:
        BatchResult<Value>)
        ensures
            match response {
                Ok(answer) => result@ matches BatchResultView::Keyed(outcomes) && outcomes.len()
                    == count && forall|k: int|
                    0 <= k < count ==> #[trigger] outcomes[k] == alias_outcome(
                        *answer,
                        alias_of(k as nat),
                    ),
                Err(message) => result@ == BatchResultView::Failed(message@),
            },
    {
        match response {
            Ok(answer) => {
                let mut outcomes: Vec<Outcome<Value>> = Vec::new();
                let mut k: usize = 0;
                while k < count
                    invariant
                        k <= count,
                        outcomes@.len() == k,
                        forall|j: int|
                            0 <= j < k ==> (#[trigger] outcomes@[j])@ == alias_outcome(
                                *answer,
                                alias_of(j as nat),
                            ),
                    decreases count - k,
                {
                    let name = alias(k);
                    outcomes.push(outcome_under(answer, name.as_str()));
                    k += 1;
                }
                BatchResult::Keyed(outcomes)
            },
            Err(message) => BatchResult::Failed(message.clone()),
        }
    }

    /// What the calls for a batch came to where every key had a call of its
    /// own. Each key gets the outcome of its own call; a call that could not
    /// be completed, or an error in its answer, fails that key alone.
    pub fn collect_calls(&self, responses: &Vec<Result<GraphqlResponse, String>>) -> (result:
        BatchResult<Value>)
        ensures
            result@ matches BatchResultView::Keyed(outcomes) && outcomes.len() == responses@.len()
                && forall|k: int|
                0 <= k < responses@.len() ==> outcomes[k] == query_outcome(
                    #[trigger] responses@[k],
                ),
    {
        let mut outcomes: Vec<Outcome<Value>> = Vec::new();
        let mut k: usize = 0;
        while k < responses.len()
            invariant
                k <= responses.len(),
                outcomes@.len() == k,
                forall|j: int|
                    0 <= j < k ==> (#[trigger] outcomes@[j])@ == query_outcome(responses@[j]),
            decreases responses.len() - k,
        {
            outcomes.push(outcome_of(&responses[k]));
            k += 1;
        }
        BatchResult::Keyed(outcomes)
    }
}

/// The text of a digit is one character, and tells the digit.
pub proof fn lemma_digit_text(d: nat)
    requires
        d < 10,
    ensures
        digit_text(d).len() == 1,
        digit_text(d)[0] as u32 == 48 + d,
{
    reveal_strlit("0");
    reveal_strlit("1");
    reveal_strlit("2");
    reveal_strlit("3");
    reveal_strlit("4");
    reveal_strlit("5");
    reveal_strlit("6");
    reveal_strlit("7");
    reveal_strlit("8");
    reveal_strlit("9");
}

/// A number is written with one digit below ten and with more from ten on,
/// and its last digit is its remainder by ten.
pub proof fn lemma_decimal_shape(n: nat)
    ensures
        decimal(n).len() >= 1,
        n >= 10 ==> decimal(n).len() >= 2,
        n < 10 ==> decimal(n).len() == 1,
        decimal(n).last() as u32 == 48 + n % 10,
        n >= 10 ==> decimal(n).drop_last() == decimal(n / 10),
    decreases n,
{
    lemma_digit_text(n % 10);
    if n >= 10 {
        lemma_decimal_shape(n / 10);
        assert(decimal(n).drop_last() =~= decimal(n / 10));
    }
}

/// Two numbers that are written alike are the same number.
pub proof fn lemma_decimal_is_injective(a: nat, b: nat)
    requires
        decimal(a) == decimal(b),
    ensures
        a == b,
    decreases a,
{
    lemma_decimal_shape(a);
    lemma_decimal_shape(b);
    if a >= 10 {
        lemma_decimal_is_injective(a / 10, b / 10);
    }
}

/// One alias per key: the keys at different positions of a batch travel
/// under different aliases.
pub proof fn lemma_aliases_are_distinct(i: nat, j: nat)
    requires
        i != j,
    ensures
        alias_of(i) != alias_of(j),
{
    if alias_of(i) == alias_of(j) {
        let k = "k"@;
        assert(decimal(i) =~= alias_of(i).subrange(k.len() as int, alias_of(i).len() as int));
        assert(decimal(j) =~= alias_of(j).subrange(k.len() as int, alias_of(j).len() as int));
        lemma_decimal_is_injective(i, j);
    }
}

} // verus!
