//! The batch scheduler: many concurrent demands for keyed values become few
//! upstream calls.
//!
//! The scheduler is a state machine. A submission joins the open batch, or
//! opens one; a batch closes when it holds as many distinct keys as the
//! policy allows, or when the policy's delay has passed since it was opened.
//! The caller runs the upstream work for a closed batch and hands the result
//! back; every ticket of the batch then reads its own outcome from it.

use vstd::prelude::*;
use crate::text::{same_text, views};

verus! {

/// When a batch closes: at `max_size` distinct keys, or `delay` milliseconds
/// after it was opened, whichever comes first.
#[derive(Clone, Copy, Debug, PartialEq, Eq)]
pub struct BatchPolicy {
    pub max_size: usize,
    pub delay: u64,
}

impl BatchPolicy {
    /// A policy admits at least one key per batch.
    pub open spec fn valid(&self) -> bool {
        self.max_size >= 1
    }
}

/// The policy of batches where none is configured: up to a hundred keys, and
/// no waiting.
pub open spec fn default_policy() -> BatchPolicy {
    BatchPolicy { max_size: 100, delay: 0 }
}

impl Default for BatchPolicy {
    fn default() -> (policy: BatchPolicy)
        ensures
            policy == default_policy(),
    {
        BatchPolicy { max_size: 100, delay: 0 }
    }
}

/// The claim of one submission: the batch that it joined and the position
/// of its key among the distinct keys of that batch.
#[derive(Clone, Copy, Debug, PartialEq, Eq)]
pub struct Ticket {
    pub batch: u64,
    pub slot: usize,
}

/// A closed batch: its distinct keys in the order in which they were first
/// submitted.
#[derive(Debug, PartialEq, Eq)]
pub struct Batch {
    pub id: u64,
    pub keys: Vec<String>,
}

/// A closed batch as the contracts see it.
pub struct BatchView {
    pub id: u64,
    pub keys: Seq<Seq<char>>,
}

impl View for Batch {
    type V = BatchView;

    open spec fn view(&self) -> BatchView {
        BatchView { id: self.id, keys: views(self.keys@) }
    }
}

/// The outcome of the upstream work for one key.
#[derive(Debug, PartialEq, Eq)]
pub enum Outcome<V> {
    Success(V),
    Failure(String),
}

/// What the upstream work for a closed batch came to: one outcome per key,
/// in the order of the keys, or a failure of the call as a whole.
#[derive(Debug, PartialEq, Eq)]
pub enum BatchResult<V> {
    Keyed(Vec<Outcome<V>>),
    Failed(String),
}

/// What one requester observes: the value for its key, a failure of its key
/// alone, or the failure that the whole batch shares.
#[derive(Debug, PartialEq, Eq)]
pub enum LoaderOutcome<'a, V> {
    Success(&'a V),
    KeyFailure(&'a String),
    CallFailure(&'a String),
}

/// The scheduler as the contracts see it. A batch is open exactly when
/// `keys` is not empty.
pub struct SchedulerView {
    pub policy: BatchPolicy,
    pub next_id: u64,
    pub keys: Seq<Seq<char>>,
    pub opened_at: u64,
}

/// What one submission does to the scheduler.
pub struct Step {
    pub next: SchedulerView,
    pub ticket: Ticket,
    pub closed: Option<BatchView>,
}

/// The invariant of the scheduler: the open batch holds each key once and
/// has room for one more.
pub open spec fn well_formed(s: SchedulerView) -> bool {
    &&& s.policy.valid()
    &&& s.keys.no_duplicates()
    &&& s.keys.len() < s.policy.max_size
}

/// The keys of a batch after `key` was submitted to it.
pub open spec fn with_key(keys: Seq<Seq<char>>, key: Seq<char>) -> Seq<Seq<char>> {
    if keys.contains(key) {
        keys
    } else {
        keys.push(key)
    }
}

/// The identifier of the batch that follows batch `id`.
pub open spec fn following(id: u64) -> u64 {
    if id == u64::MAX {
        0
    } else {
        (id + 1) as u64
    }
}

/// The time that has passed since `opened_at`; none if the clock went back.
pub open spec fn elapsed(opened_at: u64, now: u64) -> int {
    if now >= opened_at {
        now - opened_at
    } else {
        0
    }
}

/// Whether the open batch has waited out the delay.
pub open spec fn due(s: SchedulerView, now: u64) -> bool {
    s.keys.len() > 0 && elapsed(s.opened_at, now) >= s.policy.delay
}

/// The scheduler with the open batch gone and the next identifier in use.
pub open spec fn after_close(s: SchedulerView) -> SchedulerView {
    SchedulerView {
        policy: s.policy,
        next_id: following(s.next_id),
        keys: Seq::empty(),
        opened_at: s.opened_at,
    }
}

/// A submission of `key` at time `now`. The key joins the open batch unless
/// the batch holds it already; the ticket names its position. A batch that
/// reaches the size bound closes at once.
pub open spec fn submit_step(s: SchedulerView, key: Seq<char>, now: u64) -> Step {
    let keys = with_key(s.keys, key);
    let opened_at = if s.keys.len() == 0 {
        now
    } else {
        s.opened_at
    };
    let ticket = Ticket { batch: s.next_id, slot: keys.index_of(key) as usize };
    let joined = SchedulerView { policy: s.policy, next_id: s.next_id, keys, opened_at };
    if keys.len() >= s.policy.max_size {
        Step {
            next: after_close(joined),
            ticket,
            closed: Some(BatchView { id: s.next_id, keys }),
        }
    } else {
        Step { next: joined, ticket, closed: None }
    }
}

/// The batch that closes at a scheduling opportunity at time `now`.
pub open spec fn tick_closed(s: SchedulerView, now: u64) -> Option<BatchView> {
    if due(s, now) {
        Some(BatchView { id: s.next_id, keys: s.keys })
    } else {
        None
    }
}

/// The scheduler after a scheduling opportunity at time `now`.
pub open spec fn tick_next(s: SchedulerView, now: u64) -> SchedulerView {
    if due(s, now) {
        after_close(s)
    } else {
        s
    }
}

/// Whether `ticket` was issued for `batch`.
pub open spec fn holds(batch: BatchView, ticket: Ticket) -> bool {
    ticket.batch == batch.id && ticket.slot < batch.keys.len()
}

/// What the holder of `ticket` observes of `result`. A call-level failure is
/// shared by every ticket of the batch; otherwise a ticket sees the outcome
/// at its own position and nothing else. A ticket of another batch, or one
/// whose position the result does not cover, observes nothing.
pub open spec fn delivered<'a, V>(
    batch: BatchView,
    result: &'a BatchResult<V>,
    ticket: Ticket,
) -> Option<LoaderOutcome<'a, V>> {
    if !holds(batch, ticket) {
        None
    } else {
        match result {
            BatchResult::Failed(message) => Some(LoaderOutcome::CallFailure(message)),
            BatchResult::Keyed(outcomes) => if ticket.slot < outcomes@.len() {
                match &outcomes@[ticket.slot as int] {
                    Outcome::Success(value) => Some(LoaderOutcome::Success(value)),
                    Outcome::Failure(message) => Some(LoaderOutcome::KeyFailure(message)),
                }
            } else {
                None
            },
        }
    }
}

/// Reads the outcome of one ticket from the result of its batch.
pub fn deliver<'a, V>(batch: &Batch, result: &'a BatchResult<V>, ticket: &Ticket) -> (r: Option<
    LoaderOutcome<'a, V>,
>)
    ensures
        r == delivered(batch@, result, *ticket),
{
    if ticket.batch != batch.id || ticket.slot >= batch.keys.len() {
        return None;
    }
    match result {
        BatchResult::Failed(message) => Some(LoaderOutcome::CallFailure(message)),
        BatchResult::Keyed(outcomes) => {
            if ticket.slot < outcomes.len() {
                match &outcomes[ticket.slot] {
                    Outcome::Success(value) => Some(LoaderOutcome::Success(value)),
                    Outcome::Failure(message) => Some(LoaderOutcome::KeyFailure(message)),
                }
            } else {
                None
            }
        },
    }
}

/// Reads the outcomes of the tickets of a batch from its result, one for
/// each ticket and in their order: every requester gets what belongs to its
/// key, and requesters of one key get the same.
pub fn distribute<'a, V>(batch: &Batch, result: &'a BatchResult<V>, tickets: &Vec<Ticket>) -> (r:
    Vec<Option<LoaderOutcome<'a, V>>>)
    ensures
        r@.len() == tickets@.len(),
        forall|i: int|
            0 <= i < tickets@.len() ==> #[trigger] r@[i] == delivered(batch@, result, tickets@[i]),
{
    let mut outcomes: Vec<Option<LoaderOutcome<'a, V>>> = Vec::new();
    let mut i: usize = 0;
    while i < tickets.len()
        invariant
            i <= tickets.len(),
            outcomes@.len() == i,
            forall|j: int|
                0 <= j < i ==> #[trigger] outcomes@[j] == delivered(batch@, result, tickets@[j]),
        decreases tickets.len() - i,
    {
        outcomes.push(deliver(batch, result, &tickets[i]));
        i += 1;
    }
    outcomes
}

/// The place where a requester waits for its outcome. A slot is filled once
/// and never again.
pub struct CompletionSlot<T> {
    outcome: Option<T>,
}

impl<T> CompletionSlot<T> {
    /// What the slot holds, if it was filled.
    pub closed spec fn content(&self) -> Option<T> {
        self.outcome
    }

    /// An empty slot.
    pub fn new() -> (slot: CompletionSlot<T>)
        ensures
            slot.content() is None,
    {
        CompletionSlot { outcome: None }
    }

    /// Whether the slot was filled.
    pub fn is_fulfilled(&self) -> (filled: bool)
        ensures
            filled == self.content() is Some,
    {
        self.outcome.is_some()
    }

    /// Fills the slot. To fill a slot twice is an error of the caller, which
    /// the precondition rules out.
    pub fn fulfil(&mut self, outcome: T)
        requires
            old(self).content() is None,
        ensures
            final(self).content() == Some(outcome),
    {
        self.outcome = Some(outcome);
    }

    /// Hands out what the slot holds. A requester that was abandoned never
    /// does so, and nothing comes of it.
    pub fn take(self) -> (outcome: Option<T>)
        ensures
            outcome == self.content(),
    {
        self.outcome
    }
}

/// The scheduler: the policy, the open batch and the identifier that the
/// next closed batch gets.
pub struct BatchScheduler {
    policy: BatchPolicy,
    next_id: u64,
    keys: Vec<String>,
    opened_at: u64,
}

impl View for BatchScheduler {
    type V = SchedulerView;

    closed spec fn view(&self) -> SchedulerView {
        SchedulerView {
            policy: self.policy,
            next_id: self.next_id,
            keys: views(self.keys@),
            opened_at: self.opened_at,
        }
    }
}

impl BatchScheduler {
    /// What holds of every scheduler: the open batch holds each key once
    /// and has room for one more.
    #[verifier::type_invariant]
    closed spec fn inv(self) -> bool {
        well_formed(self@)
    }

    /// The invariant, for those who reason about a scheduler. Every
    /// scheduler that exists satisfies it.
    pub open spec fn wf(&self) -> bool {
        well_formed(self@)
    }

    /// A scheduler without an open batch. There is none for a policy that
    /// admits no key.
    pub fn new(policy: BatchPolicy) -> (made: Option<BatchScheduler>)
        ensures
            made is Some <==> policy.valid(),
            made matches Some(s) ==> s.wf() && s@ == (SchedulerView {
                policy,
                next_id: 0,
                keys: Seq::empty(),
                opened_at: 0,
            }),
    {
        if policy.max_size == 0 {
            return None;
        }
        let keys: Vec<String> = Vec::new();
        assert(views(keys@) =~= Seq::empty());
        Some(BatchScheduler { policy, next_id: 0, keys, opened_at: 0 })
    }

    /// The policy that the scheduler was made with.
    pub fn policy(&self) -> (p: BatchPolicy)
        ensures
            p == self@.policy,
            self.wf(),
    {
        proof {
            use_type_invariant(self);
        }
        self.policy
    }

    /// The number of distinct keys that wait in the open batch.
    pub fn pending(&self) -> (n: usize)
        ensures
            n == self@.keys.len(),
            self.wf(),
    {
        proof {
            use_type_invariant(self);
        }
        self.keys.len()
    }

    /// The time at which the open batch is due, if one is open.
    pub fn deadline(&self) -> (at: Option<u64>)
        ensures
            self@.keys.len() == 0 ==> at is None,
            self@.keys.len() > 0 ==> at == Some(
                if self@.opened_at + self@.policy.delay > u64::MAX {
                    u64::MAX
                } else {
                    (self@.opened_at + self@.policy.delay) as u64
                },
            ),
    {
        if self.keys.len() == 0 {
            None
        } else {
            Some(self.opened_at.saturating_add(self.policy.delay))
        }
    }

    /// Closes the batch that holds `keys` and hands it out. The scheduler
    /// itself holds no key at that moment.
    fn close(&mut self, keys: Vec<String>) -> (batch: Batch)
        requires
            old(self)@.keys.len() == 0,
        ensures
            final(self)@ == after_close(old(self)@),
            batch@ == (BatchView { id: old(self)@.next_id, keys: views(keys@) }),
            final(self).wf(),
    {
        proof {
            use_type_invariant(&*self);
        }
        let batch = Batch { id: self.next_id, keys };
        self.next_id = self.next_id.wrapping_add(1);
        assert(views(self.keys@) =~= Seq::empty());
        batch
    }

    /// Takes the keys of the open batch out of the scheduler.
    fn take_keys(&mut self) -> (keys: Vec<String>)
        ensures
            views(keys@) == old(self)@.keys,
            final(self)@ == (SchedulerView {
                policy: old(self)@.policy,
                next_id: old(self)@.next_id,
                keys: Seq::empty(),
                opened_at: old(self)@.opened_at,
            }),
            final(self).wf(),
    {
        proof {
            use_type_invariant(&*self);
        }
        let mut keys: Vec<String> = Vec::new();
        assert(views(keys@) =~= Seq::empty());
        std::mem::swap(&mut self.keys, &mut keys);
        keys
    }

    /// Registers a demand for `key` at time `now`.
    ///
    /// A key that the open batch holds already is not added again: the
    /// ticket names the position that the key has. Otherwise the key is added
    /// behind the others, and a batch is opened where none was. When the
    /// batch then holds as many keys as the policy allows, it closes at once
    /// and is returned for the upstream work.
    pub fn submit(&mut self, key: String, now: u64) -> (r: (Ticket, Option<Batch>))
        ensures
            old(self).wf(),
            final(self).wf(),
            final(self)@ == submit_step(old(self)@, key@, now).next,
            r.0 == submit_step(old(self)@, key@, now).ticket,
            match r.1 {
                Some(batch) => submit_step(old(self)@, key@, now).closed == Some(batch@),
                None => submit_step(old(self)@, key@, now).closed is None,
            },
    {
        proof {
            use_type_invariant(&*self);
        }
        let ghost before = self@.keys;
        let mut slot: usize = 0;
        let mut found = false;
        while slot < self.keys.len()
            invariant_except_break
                !found,
                forall|j: int| 0 <= j < slot ==> before[j] != key@,
            invariant
                slot <= self.keys.len(),
                views(self.keys@) == before,
            ensures
                slot <= self.keys.len(),
                views(self.keys@) == before,
                found ==> slot < self.keys.len() && before[slot as int] == key@,
                !found ==> slot == self.keys.len() && !before.contains(key@),
            decreases self.keys.len() - slot,
        {
            if same_text(self.keys[slot].as_str(), key.as_str()) {
                found = true;
                break;
            }
            slot += 1;
        }
        let ghost keys = with_key(before, key@);
        proof {
            lemma_with_key(before, key@);
            assert(keys[slot as int] == key@);
            assert(keys.index_of(key@) == slot);
        }
        let ticket = Ticket { batch: self.next_id, slot };
        if found {
            return (ticket, None);
        }
        if self.keys.len() == 0 {
            self.opened_at = now;
        }
        let full = self.keys.len() + 1 >= self.policy.max_size;
        let mut grown = self.take_keys();
        grown.push(key);
        assert(views(grown@) =~= keys);
        if full {
            let batch = self.close(grown);
            (ticket, Some(batch))
        } else {
            self.keys = grown;
            assert(views(self.keys@) =~= keys);
            (ticket, None)
        }
    }

    /// A scheduling opportunity at time `now`: closes the open batch and
    /// hands it out if the delay has passed since it was opened. With a delay
    /// of zero every open batch is due.
    pub fn tick(&mut self, now: u64) -> (closed: Option<Batch>)
        ensures
            old(self).wf(),
            final(self).wf(),
            final(self)@ == tick_next(old(self)@, now),
            match closed {
                Some(batch) => tick_closed(old(self)@, now) == Some(batch@),
                None => tick_closed(old(self)@, now) is None,
            },
    {
        proof {
            use_type_invariant(&*self);
        }
        if self.keys.len() > 0 && now.saturating_sub(self.opened_at) >= self.policy.delay {
            let keys = self.take_keys();
            Some(self.close(keys))
        } else {
            None
        }
    }
}

/// Submitting a key keeps every key where it was, keeps the keys distinct,
/// and leaves the submitted key at exactly one position.
pub proof fn lemma_with_key(keys: Seq<Seq<char>>, key: Seq<char>)
    requires
        keys.no_duplicates(),
    ensures
        with_key(keys, key).no_duplicates(),
        with_key(keys, key).contains(key),
        0 <= with_key(keys, key).index_of(key) < with_key(keys, key).len(),
        with_key(keys, key)[with_key(keys, key).index_of(key)] == key,
        forall|i: int|
            0 <= i < with_key(keys, key).len() && with_key(keys, key)[i] == key ==> i == with_key(
                keys,
                key,
            ).index_of(key),
        forall|i: int| 0 <= i < keys.len() ==> with_key(keys, key)[i] == keys[i],
        keys.len() <= with_key(keys, key).len() <= keys.len() + 1,
{
    let grown = with_key(keys, key);
    if !keys.contains(key) {
        assert(grown[keys.len() as int] == key);
        assert forall|i: int, j: int| 0 <= i < grown.len() && 0 <= j < grown.len() && i != j implies grown[i] != grown[j] by {
            if i == keys.len() {
                assert(keys.contains(grown[j]));
            } else if j == keys.len() {
                assert(keys.contains(grown[i]));
            }
        }
    }
    assert(grown.contains(key));
}

/// One submission as the laws speak of it.
pub struct Submission {
    pub key: Seq<char>,
    pub now: u64,
}

/// The scheduler after the submissions of `submissions`, one after another.
pub open spec fn state_after(s: SchedulerView, submissions: Seq<Submission>) -> SchedulerView
    decreases submissions.len(),
{
    if submissions.len() == 0 {
        s
    } else {
        submit_step(
            state_after(s, submissions.drop_last()),
            submissions.last().key,
            submissions.last().now,
        ).next
    }
}

/// What submission number `k` of `submissions` does.
pub open spec fn step_at(s: SchedulerView, submissions: Seq<Submission>, k: int) -> Step {
    submit_step(state_after(s, submissions.take(k)), submissions[k].key, submissions[k].now)
}

/// Whether the submissions all fall into one coalescing window: none of them
/// closes the batch.
pub open spec fn one_window(s: SchedulerView, submissions: Seq<Submission>) -> bool {
    forall|k: int| 0 <= k < submissions.len() ==> (#[trigger] step_at(s, submissions, k)).closed is None
}

/// Whether `short` is how `long` begins.
pub open spec fn begins_with(long: Seq<Seq<char>>, short: Seq<Seq<char>>) -> bool {
    short.len() <= long.len() && forall|i: int| 0 <= i < short.len() ==> long[i] == short[i]
}

/// A batch never holds more distinct keys than the policy allows, and it
/// closes in the very submission that brings it to the bound: the open batch
/// always has room, and a batch that a submission closes holds each key once
/// and exactly `max_size` keys.
pub proof fn lemma_batch_size_bound(s: SchedulerView, key: Seq<char>, now: u64)
    requires
        well_formed(s),
    ensures
        well_formed(submit_step(s, key, now).next),
        submit_step(s, key, now).closed is Some <==> with_key(s.keys, key).len()
            == s.policy.max_size,
        submit_step(s, key, now).closed matches Some(batch) ==> batch.keys.no_duplicates()
            && batch.keys.len() == s.policy.max_size && batch.keys.contains(key),
        submit_step(s, key, now).closed is None ==> submit_step(s, key, now).next.keys == with_key(
            s.keys,
            key,
        ),
{
    lemma_with_key(s.keys, key);
}

/// The keys of a batch stand in the order in which they were first
/// submitted: a key that the batch does not hold is put behind all others
/// and gets the next position, and a key that it holds moves nothing.
pub proof fn lemma_keys_keep_first_seen_order(s: SchedulerView, key: Seq<char>, now: u64)
    requires
        well_formed(s),
    ensures
        !s.keys.contains(key) ==> with_key(s.keys, key) == s.keys.push(key) && submit_step(
            s,
            key,
            now,
        ).ticket.slot == s.keys.len(),
        s.keys.contains(key) ==> with_key(s.keys, key) == s.keys && submit_step(
            s,
            key,
            now,
        ).closed is None && submit_step(s, key, now).next.keys == s.keys && s.keys[submit_step(
            s,
            key,
            now,
        ).ticket.slot as int] == key,
{
    lemma_with_key(s.keys, key);
}

/// A batch that the delay closes holds each key once, at least one key and
/// fewer than the bound; what stays behind is a scheduler without an open
/// batch.
pub proof fn lemma_tick_keeps_bound(s: SchedulerView, now: u64)
    requires
        well_formed(s),
    ensures
        well_formed(tick_next(s, now)),
        tick_closed(s, now) matches Some(batch) ==> batch.keys.no_duplicates() && 1
            <= batch.keys.len() < s.policy.max_size && tick_next(s, now).keys.len() == 0,
        tick_closed(s, now) is None ==> tick_next(s, now) == s,
{
}

/// Within one window the scheduler only ever adds keys behind those that it
/// holds: the batch keeps its identifier, and the keys of an earlier moment
/// are how the keys of every later moment begin.
pub proof fn lemma_window_grows(s: SchedulerView, submissions: Seq<Submission>, k: int)
    requires
        well_formed(s),
        one_window(s, submissions),
        0 <= k <= submissions.len(),
    ensures
        well_formed(state_after(s, submissions.take(k))),
        state_after(s, submissions.take(k)).next_id == s.next_id,
        state_after(s, submissions.take(k)).policy == s.policy,
        begins_with(state_after(s, submissions.take(k)).keys, s.keys),
        forall|m: int|
            0 <= m <= k ==> begins_with(
                state_after(s, submissions.take(k)).keys,
                #[trigger] state_after(s, submissions.take(m)).keys,
            ),
    decreases k,
{
    if k == 0 {
        assert(submissions.take(0).len() == 0);
    } else {
        lemma_window_grows(s, submissions, k - 1);
        let before = state_after(s, submissions.take(k - 1));
        let upto = submissions.take(k);
        assert(upto.drop_last() =~= submissions.take(k - 1));
        assert(upto.last() == submissions[k - 1]);
        let step = step_at(s, submissions, k - 1);
        assert(step.closed is None);
        assert(state_after(s, upto) == step.next);
        lemma_batch_size_bound(before, submissions[k - 1].key, submissions[k - 1].now);
        lemma_with_key(before.keys, submissions[k - 1].key);
        assert forall|m: int| 0 <= m <= k implies begins_with(
            state_after(s, upto).keys,
            #[trigger] state_after(s, submissions.take(m)).keys,
        ) by {
            if m < k {
                assert(begins_with(before.keys, state_after(s, submissions.take(m)).keys));
            }
        }
    }
}

/// Deduplication: of the submissions that fall into one window, any two
/// with the same key get the same ticket. The batch holds their key once, so
/// one upstream call is made for it, and whatever the upstream work comes to,
/// both requesters observe the same outcome.
pub proof fn lemma_same_key_same_ticket<V>(
    s: SchedulerView,
    submissions: Seq<Submission>,
    i: int,
    j: int,
    batch: BatchView,
    result: BatchResult<V>,
)
    requires
        well_formed(s),
        one_window(s, submissions),
        0 <= i < j < submissions.len(),
        submissions[i].key == submissions[j].key,
    ensures
        step_at(s, submissions, i).ticket == step_at(s, submissions, j).ticket,
        state_after(s, submissions).keys.no_duplicates(),
        state_after(s, submissions).keys.contains(submissions[i].key),
        delivered(batch, &result, step_at(s, submissions, i).ticket) == delivered(
            batch,
            &result,
            step_at(s, submissions, j).ticket,
        ),
{
    let key = submissions[i].key;
    let n = submissions.len() as int;
    lemma_window_grows(s, submissions, i);
    lemma_window_grows(s, submissions, i + 1);
    lemma_window_grows(s, submissions, j);
    lemma_window_grows(s, submissions, n);
    assert(submissions.take(n) =~= submissions);
    let at_i = state_after(s, submissions.take(i));
    let after_i = state_after(s, submissions.take(i + 1));
    let at_j = state_after(s, submissions.take(j));
    let last = state_after(s, submissions);
    lemma_with_key(at_i.keys, key);
    lemma_with_key(at_j.keys, key);
    let slot = with_key(at_i.keys, key).index_of(key);
    // What submission `i` leaves behind is what it made of the keys.
    let upto = submissions.take(i + 1);
    assert(upto.drop_last() =~= submissions.take(i));
    assert(upto.last() == submissions[i]);
    assert(step_at(s, submissions, i).closed is None);
    assert(after_i.keys == with_key(at_i.keys, key));
    // The key stays where submission `i` found or put it.
    assert(begins_with(at_j.keys, after_i.keys));
    assert(at_j.keys[slot] == key);
    assert(at_j.keys.contains(key));
    assert(with_key(at_j.keys, key) == at_j.keys);
    assert(begins_with(last.keys, after_i.keys));
    assert(last.keys[slot] == key);
}

/// Key-scoped isolation: what a ticket observes of a result with one outcome
/// per key is decided by the outcome at its own position. A failure that is
/// forced on another key leaves it untouched.
pub proof fn lemma_key_scoped_isolation<V>(
    batch: BatchView,
    outcomes: Vec<Outcome<V>>,
    others: Vec<Outcome<V>>,
    ticket: Ticket,
)
    requires
        ticket.slot < outcomes@.len(),
        ticket.slot < others@.len(),
        outcomes@[ticket.slot as int] == others@[ticket.slot as int],
    ensures
        delivered(batch, &BatchResult::Keyed(outcomes), ticket) == delivered(
            batch,
            &BatchResult::Keyed(others),
            ticket,
        ),
{
}

/// Call-scoped sharing: a failure of the call as a whole is what every
/// ticket of the batch observes.
pub proof fn lemma_call_failure_is_shared<V>(batch: BatchView, message: String, ticket: Ticket)
    requires
        holds(batch, ticket),
    ensures
        delivered(batch, &BatchResult::<V>::Failed(message), ticket) == Some(
            LoaderOutcome::<V>::CallFailure(&message),
        ),
{
}

/// Every ticket that a submission issues belongs to the batch that the
/// submission joined: to the one that it closes, or to the one that is open
/// afterwards and will close under the same identifier.
pub proof fn lemma_ticket_belongs(s: SchedulerView, key: Seq<char>, now: u64)
    requires
        well_formed(s),
    ensures
        submit_step(s, key, now).closed matches Some(batch) ==> holds(
            batch,
            submit_step(s, key, now).ticket,
        ) && batch.keys[submit_step(s, key, now).ticket.slot as int] == key,
        submit_step(s, key, now).closed is None ==> {
            let next = submit_step(s, key, now).next;
            let ticket = submit_step(s, key, now).ticket;
            ticket.batch == next.next_id && ticket.slot < next.keys.len()
                && next.keys[ticket.slot as int] == key
        },
{
    lemma_with_key(s.keys, key);
}

} // verus!
