//! The HTTP batch loader: coalesces the HTTP calls that one resolver field
//! makes for many parent objects.
//!
//! Without a grouping the loader only deduplicates: the key of a request is
//! the request itself, and every distinct key gets a call of its own. With a
//! grouping the endpoint is asked for all keys in one call, and the answer is
//! split by matching each key against a field of the answer.

use vstd::prelude::*;
use crate::batch::{Batch, BatchPolicy, BatchResult, BatchScheduler, Outcome, Ticket, submit_step};
use crate::loader::{BatchResultView, OutcomeView};
use crate::path::{get_path_value, path_value};
use crate::text::{find_first, find_pair, join, join_strings, lemma_find_first_at, lemma_find_first_none, pair_value, same_text, views};
use crate::value::{Value, ValueView, lemma_list_view};

verus! {

/// An upstream request: the address without its query, and the query as
/// pairs of a name and a value in the order in which they are sent.
#[derive(Clone, Debug, PartialEq, Eq)]
pub struct HttpRequest {
    pub url: String,
    pub query: Vec<(String, String)>,
}

/// How a multi-key answer is told apart: `path` leads, in each item of the
/// answer, to the field that carries the key. The last segment of the path
/// is also the name of the query parameter that carries the key in a
/// request; with an empty path that name is `id`.
#[derive(Clone, Debug, PartialEq, Eq)]
pub struct GroupBy {
    pub path: Vec<String>,
}

/// The HTTP batch loader of one resolver field.
#[derive(Clone, Debug, PartialEq, Eq)]
pub struct HttpBatchLoader {
    pub group_by: Option<GroupBy>,
    pub is_list: bool,
    pub policy: BatchPolicy,
}

/// A query as the contracts see it.
pub open spec fn pairs_view(query: Seq<(String, String)>) -> Seq<(Seq<char>, Seq<char>)> {
    Seq::new(query.len(), |i: int| (query[i].0@, query[i].1@))
}

/// One pair of a query as it is written in a key.
pub open spec fn pair_text(pair: (String, String)) -> Seq<char> {
    pair.0@ + "="@ + pair.1@
}

/// The text that stands for a whole request: the address and, behind a
/// question mark, the pairs of the query with `&` between them.
pub open spec fn request_text(request: HttpRequest) -> Seq<char> {
    if request.query@.len() == 0 {
        request.url@
    } else {
        request.url@ + "?"@ + join(
            request.query@.map_values(|p: (String, String)| pair_text(p)),
            "&"@,
        )
    }
}

/// The name of the query parameter that carries the key.
pub open spec fn key_parameter(group_by: GroupBy) -> Seq<char> {
    if group_by.path@.len() == 0 {
        "id"@
    } else {
        group_by.path@.last()@
    }
}

/// The batch key of a request: with a grouping the value of the key
/// parameter, which a request may lack; without one the whole request.
pub open spec fn batch_key_of(loader: HttpBatchLoader, request: HttpRequest) -> Option<Seq<char>> {
    match loader.group_by {
        Some(group_by) => pair_value(request.query@, key_parameter(group_by)),
        None => Some(request_text(request)),
    }
}

/// An optional text as the contracts see it.
pub open spec fn option_text(text: Option<String>) -> Option<Seq<char>> {
    match text {
        Some(t) => Some(t@),
        None => None,
    }
}

/// The pairs of `query` that are not called `name`, in order.
pub open spec fn other_pairs(query: Seq<(String, String)>, name: Seq<char>) -> Seq<
    (Seq<char>, Seq<char>),
>
    decreases query.len(),
{
    if query.len() == 0 {
        Seq::empty()
    } else if query.last().0@ == name {
        other_pairs(query.drop_last(), name)
    } else {
        other_pairs(query.drop_last(), name).push((query.last().0@, query.last().1@))
    }
}

/// One pair called `name` for each key, in the order of the keys.
pub open spec fn key_pairs(name: Seq<char>, keys: Seq<Seq<char>>) -> Seq<(Seq<char>, Seq<char>)> {
    Seq::new(keys.len(), |i: int| (name, keys[i]))
}

/// The text that a resolved value gives to match a key against: that of a
/// string or a number, `true` or `false` for a boolean, none for anything
/// else.
pub open spec fn key_text(value: Option<ValueView>) -> Option<Seq<char>> {
    match value {
        Some(ValueView::String(text)) => Some(text),
        Some(ValueView::Number(text)) => Some(text),
        Some(ValueView::Boolean(b)) => Some(
            if b {
                "true"@
            } else {
                "false"@
            },
        ),
        _ => None,
    }
}

/// Selects the items whose field at `path` matches `key`.
pub open spec fn matches_key(path: Seq<Seq<char>>, key: Seq<char>) -> spec_fn(ValueView) -> bool {
    |item: ValueView| key_text(path_value(item, path)) == Some(key)
}

/// The items of a multi-key answer: those of a list, or the answer itself
/// where it is no list.
pub open spec fn items_of(body: ValueView) -> Seq<ValueView> {
    match body {
        ValueView::List(items) => items,
        other => seq![other],
    }
}

/// The items of `items` that satisfy `p`, in order.
pub open spec fn matching(items: Seq<ValueView>, p: spec_fn(ValueView) -> bool) -> Seq<ValueView>
    decreases items.len(),
{
    if items.len() == 0 {
        Seq::empty()
    } else if p(items.last()) {
        matching(items.drop_last(), p).push(items.last())
    } else {
        matching(items.drop_last(), p)
    }
}

/// The share of one key in a multi-key answer. For a list field it is the
/// list of all items that match the key, which may be empty; for any other
/// field it is the first item that matches, or null where none does.
pub open spec fn key_share(
    items: Seq<ValueView>,
    path: Seq<Seq<char>>,
    key: Seq<char>,
    is_list: bool,
) -> ValueView {
    if is_list {
        ValueView::List(matching(items, matches_key(path, key)))
    } else {
        match find_first(items, matches_key(path, key)) {
            Some(item) => item,
            None => ValueView::Null,
        }
    }
}

/// Whether `item` matches `key` at `path`.
pub fn item_matches(item: &Value, path: &Vec<String>, key: &str) -> (r: bool)
    ensures
        r == matches_key(views(path@), key@)(item@),
{
    match get_path_value(item, path.as_slice()) {
        Some(Value::String(text)) => same_text(text.as_str(), key),
        Some(Value::Number(text)) => same_text(text.as_str(), key),
        Some(Value::Boolean(b)) => {
            if *b {
                same_text("true", key)
            } else {
                same_text("false", key)
            }
        },
        _ => false,
    }
}

impl GroupBy {
    /// The name of the query parameter that carries the key.
    pub fn key_name(&self) -> (name: &str)
        ensures
            name@ == key_parameter(*self),
    {
        if self.path.len() == 0 {
            "id"
        } else {
            self.path[self.path.len() - 1].as_str()
        }
    }

    /// The one request that asks for all keys of a batch: the address of
    /// `base`, its query without the key parameter, and then the key
    /// parameter once for each key, in the order of the keys.
    pub fn merged_request(&self, base: &HttpRequest, keys: &Vec<String>) -> (request: HttpRequest)
        ensures
            request.url@ == base.url@,
            pairs_view(request.query@) == other_pairs(base.query@, key_parameter(*self))
                + key_pairs(key_parameter(*self), views(keys@)),
    {
        let name = self.key_name();
        let mut query: Vec<(String, String)> = Vec::new();
        let mut i: usize = 0;
        while i < base.query.len()
            invariant
                i <= base.query.len(),
                name@ == key_parameter(*self),
                pairs_view(query@) == other_pairs(base.query@.take(i as int), name@),
            decreases base.query.len() - i,
        {
            proof {
                let upto = base.query@.take(i as int + 1);
                assert(upto.drop_last() =~= base.query@.take(i as int));
                assert(upto.last() == base.query@[i as int]);
            }
            if !same_text(base.query[i].0.as_str(), name) {
                let ghost before = pairs_view(query@);
                query.push((base.query[i].0.clone(), base.query[i].1.clone()));
                assert(pairs_view(query@) =~= before.push(
                    (base.query@[i as int].0@, base.query@[i as int].1@),
                ));
            }
            i += 1;
        }
        assert(base.query@.take(base.query.len() as int) =~= base.query@);
        let ghost others = pairs_view(query@);
        let mut k: usize = 0;
        while k < keys.len()
            invariant
                k <= keys.len(),
                name@ == key_parameter(*self),
                pairs_view(query@) == others + key_pairs(name@, views(keys@).take(k as int)),
            decreases keys.len() - k,
        {
            let ghost before = pairs_view(query@);
            query.push((String::from_str(name), keys[k].clone()));
            assert(pairs_view(query@) =~= before.push((name@, keys@[k as int]@)));
            assert(others + key_pairs(name@, views(keys@).take(k as int + 1)) =~= before.push(
                (name@, keys@[k as int]@),
            ));
            k += 1;
        }
        assert(views(keys@).take(keys.len() as int) =~= views(keys@));
        HttpRequest { url: base.url.clone(), query }
    }

    /// Splits a multi-key answer among the keys of the batch: one outcome for
    /// each key, in the order of the keys, each a success that carries the
    /// share of that key.
    pub fn split_response(&self, body: &Value, keys: &Vec<String>, is_list: bool) -> (outcomes:
        Vec<Outcome<Value>>)
        ensures
            outcomes@.len() == keys@.len(),
            forall|k: int|
                0 <= k < keys@.len() ==> (#[trigger] outcomes@[k])@ == OutcomeView::Success(
                    key_share(items_of(body@), views(self.path@), keys@[k]@, is_list),
                ),
    {
        let ghost items = items_of(body@);
        let mut refs: Vec<&Value> = Vec::new();
        match body {
            Value::List(list) => {
                proof {
                    lemma_list_view(list@);
                }
                let mut i: usize = 0;
                while i < list.len()
                    invariant
                        i <= list.len(),
                        refs@.len() == i,
                        items.len() == list@.len(),
                        forall|j: int| 0 <= j < list@.len() ==> items[j] == (#[trigger] list@[j])@,
                        forall|j: int| 0 <= j < i ==> (#[trigger] refs@[j])@ == items[j],
                    decreases list.len() - i,
                {
                    refs.push(&list[i]);
                    i += 1;
                }
            },
            other => {
                refs.push(other);
            },
        }
        assert(refs@.len() == items.len());
        let mut outcomes: Vec<Outcome<Value>> = Vec::new();
        let mut k: usize = 0;
        while k < keys.len()
            invariant
                k <= keys.len(),
                outcomes@.len() == k,
                refs@.len() == items.len(),
                forall|j: int| 0 <= j < refs@.len() ==> (#[trigger] refs@[j])@ == items[j],
                forall|j: int|
                    0 <= j < k ==> (#[trigger] outcomes@[j])@ == OutcomeView::Success(
                        key_share(items, views(self.path@), keys@[j]@, is_list),
                    ),
            decreases keys.len() - k,
        {
            let key = keys[k].as_str();
            let ghost p = matches_key(views(self.path@), key@);
            let mut found: Vec<Value> = Vec::new();
            let mut first: Option<&Value> = None;
            let mut i: usize = 0;
            while i < refs.len()
                invariant
                    i <= refs.len(),
                    refs@.len() == items.len(),
                    p == matches_key(views(self.path@), key@),
                    forall|j: int| 0 <= j < refs@.len() ==> (#[trigger] refs@[j])@ == items[j],
                    is_list ==> found@.len() == matching(items.take(i as int), p).len(),
                    is_list ==> forall|j: int|
                        0 <= j < found@.len() ==> (#[trigger] found@[j])@ == matching(
                            items.take(i as int),
                            p,
                        )[j],
                    match first {
                        Some(item) => find_first(items, p) == Some(item@),
                        None => forall|j: int| 0 <= j < i ==> !p(#[trigger] items[j]),
                    },
                decreases refs.len() - i,
            {
                proof {
                    let upto = items.take(i as int + 1);
                    assert(upto.drop_last() =~= items.take(i as int));
                    assert(upto.last() == items[i as int]);
                }
                if item_matches(refs[i], &self.path, key) {
                    if first.is_none() {
                        proof {
                            lemma_find_first_at(items, p, i as int);
                        }
                        first = Some(refs[i]);
                    }
                    if is_list {
                        found.push(refs[i].duplicate());
                    }
                }
                i += 1;
            }
            assert(items.take(refs.len() as int) =~= items);
            let share = if is_list {
                let list = Value::List(found);
                proof {
                    lemma_list_view(found@);
                    assert(list@->List_0 =~= matching(items, p));
                }
                list
            } else {
                match first {
                    Some(item) => item.duplicate(),
                    None => {
                        proof {
                            lemma_find_first_none(items, p);
                        }
                        Value::Null
                    },
                }
            };
            outcomes.push(Outcome::Success(share));
            k += 1;
        }
        outcomes
    }
}

/// Writes the text that stands for a whole request.
pub fn request_key(request: &HttpRequest) -> (key: String)
    ensures
        key@ == request_text(*request),
{
    let mut key = request.url.clone();
    if request.query.len() == 0 {
        return key;
    }
    let ghost texts = request.query@.map_values(|p: (String, String)| pair_text(p));
    let mut parts: Vec<String> = Vec::new();
    let mut i: usize = 0;
    while i < request.query.len()
        invariant
            i <= request.query.len(),
            texts == request.query@.map_values(|p: (String, String)| pair_text(p)),
            views(parts@) == texts.take(i as int),
        decreases request.query.len() - i,
    {
        let mut part = request.query[i].0.clone();
        part.append("=");
        part.append(request.query[i].1.as_str());
        assert(part@ =~= pair_text(request.query@[i as int]));
        assert(texts[i as int] == pair_text(request.query@[i as int]));
        let ghost before = views(parts@);
        parts.push(part);
        assert(views(parts@) =~= before.push(part@));
        assert(before.push(part@) =~= texts.take(i as int + 1));
        i += 1;
    }
    assert(texts.take(request.query.len() as int) =~= texts);
    let joined = join_strings(&parts, "&");
    key.append("?");
    key.append(joined.as_str());
    assert(key@ =~= request.url@ + "?"@ + joined@);
    key
}

impl HttpBatchLoader {
    /// A loader for a field: with the grouping that is configured for it, if
    /// any, with the mark of a list field, and with the policy of its
    /// batches.
    pub fn new(group_by: Option<GroupBy>, is_list: bool, policy: BatchPolicy) -> (loader:
        HttpBatchLoader)
        ensures
            loader.group_by == group_by,
            loader.is_list == is_list,
            loader.policy == policy,
    {
        HttpBatchLoader { group_by, is_list, policy }
    }

    /// The batch key of a request. With a grouping it is the value of the key
    /// parameter, and a request without that parameter has no key; without a
    /// grouping it is the text of the whole request.
    pub fn batch_key(&self, request: &HttpRequest) -> (key: Option<String>)
        ensures
            option_text(key) == batch_key_of(*self, *request),
    {
        match &self.group_by {
            Some(group_by) => match find_pair(&request.query, group_by.key_name()) {
                Some(value) => Some(value.clone()),
                None => None,
            },
            None => Some(request_key(request)),
        }
    }

    /// Registers a demand for the answer to `request` at time `now`: derives
    /// the batch key and submits it. A request that has no key is not
    /// submitted, and the scheduler stays as it was.
    pub fn load(&self, scheduler: &mut BatchScheduler, request: &HttpRequest, now: u64) -> (r:
        Option<(Ticket, Option<Batch>)>)
        ensures
            match batch_key_of(*self, *request) {
                Some(key) => r matches Some(submitted) && final(scheduler)@ == submit_step(
                    old(scheduler)@,
                    key,
                    now,
                ).next && submitted.0 == submit_step(old(scheduler)@, key, now).ticket
                    && match submitted.1 {
                    Some(batch) => submit_step(old(scheduler)@, key, now).closed == Some(batch@),
                    None => submit_step(old(scheduler)@, key, now).closed is None,
                },
                None => r is None && final(scheduler)@ == old(scheduler)@,
            },
    {
        match self.batch_key(request) {
            Some(key) => Some(scheduler.submit(key, now)),
            None => None,
        }
    }

    /// What the one call for all keys of a batch came to. A call that could
    /// not be completed fails the batch as a whole, for every key alike. An
    /// answer is split among the keys, and every key succeeds with its share.
    /// A loader without a grouping matches the keys against the items of the
    /// answer themselves.
    pub fn collect_merged(&self, keys: &Vec<String>, response: &Result<Value, String>) -> (result:
        BatchResult<Value>)
        ensures
            match response {
                Ok(body) => result@ matches BatchResultView::Keyed(outcomes) && outcomes.len()
                    == keys@.len() && forall|k: int|
                    0 <= k < keys@.len() ==> #[trigger] outcomes[k] == OutcomeView::Success(
                        key_share(items_of(body@), group_path(*self), keys@[k]@, self.is_list),
                    ),
                Err(message) => result@ == BatchResultView::Failed(message@),
            },
    {
        match response {
            Ok(body) => {
                let outcomes = match &self.group_by {
                    Some(group_by) => group_by.split_response(body, keys, self.is_list),
                    None => {
                        let whole = GroupBy { path: Vec::new() };
                        assert(views(whole.path@) =~= Seq::empty());
                        whole.split_response(body, keys, self.is_list)
                    },
                };
                BatchResult::Keyed(outcomes)
            },
            Err(message) => BatchResult::Failed(message.clone()),
        }
    }
}

/// The path that a loader matches keys at.
pub open spec fn group_path(loader: HttpBatchLoader) -> Seq<Seq<char>> {
    match loader.group_by {
        Some(group_by) => views(group_by.path@),
        None => Seq::empty(),
    }
}

} // verus!
