use graphql_gateway::batch::{
    deliver, distribute, Batch, BatchPolicy, BatchResult, BatchScheduler, CompletionSlot,
    LoaderOutcome, Outcome, Ticket,
};

fn key(text: &str) -> String {
    text.to_string()
}

#[test]
fn two_resolutions_of_one_key_share_one_call() {
    let mut scheduler = BatchScheduler::new(BatchPolicy { max_size: 10, delay: 5 }).unwrap();
    let (first, closed) = scheduler.submit(key("user(id: 1)"), 0);
    assert!(closed.is_none());
    let (second, closed) = scheduler.submit(key("user(id: 1)"), 1);
    assert!(closed.is_none());
    assert_eq!(first, second);
    assert_eq!(scheduler.pending(), 1);
    assert_eq!(scheduler.tick(4), None);
    let batch = scheduler.tick(5).unwrap();
    assert_eq!(batch, Batch { id: 0, keys: vec![key("user(id: 1)")] });
    assert_eq!(scheduler.pending(), 0);

    let payload = key("{\"id\":1,\"name\":\"Ann\"}");
    let result = BatchResult::Keyed(vec![Outcome::Success(payload.clone())]);
    assert_eq!(deliver(&batch, &result, &first), Some(LoaderOutcome::Success(&payload)));
    assert_eq!(deliver(&batch, &result, &second), Some(LoaderOutcome::Success(&payload)));
}

#[test]
fn three_keys_with_room_for_two_make_two_batches() {
    let mut scheduler = BatchScheduler::new(BatchPolicy { max_size: 2, delay: 5 }).unwrap();
    let (one, closed) = scheduler.submit(key("1"), 0);
    assert_eq!(closed, None);
    let (two, closed) = scheduler.submit(key("2"), 1);
    assert_eq!(closed, Some(Batch { id: 0, keys: vec![key("1"), key("2")] }));
    let (three, closed) = scheduler.submit(key("3"), 2);
    assert_eq!(closed, None);
    assert_eq!(one, Ticket { batch: 0, slot: 0 });
    assert_eq!(two, Ticket { batch: 0, slot: 1 });
    assert_eq!(three, Ticket { batch: 1, slot: 0 });
    assert_eq!(scheduler.tick(6), None);
    assert_eq!(scheduler.tick(7), Some(Batch { id: 1, keys: vec![key("3")] }));
    assert_eq!(scheduler.tick(100), None);
}

#[test]
fn many_submissions_of_one_key_get_one_ticket() {
    let mut scheduler = BatchScheduler::new(BatchPolicy { max_size: 3, delay: 50 }).unwrap();
    let (other, _) = scheduler.submit(key("a"), 0);
    let mut tickets = vec![];
    for now in 0..20u64 {
        let (ticket, closed) = scheduler.submit(key("b"), now);
        assert!(closed.is_none());
        tickets.push(ticket);
    }
    assert!(tickets.iter().all(|t| *t == Ticket { batch: 0, slot: 1 }));
    assert_eq!(other, Ticket { batch: 0, slot: 0 });
    assert_eq!(scheduler.pending(), 2);
    let batch = scheduler.tick(50).unwrap();
    assert_eq!(batch.keys, vec![key("a"), key("b")]);

    let result = BatchResult::Keyed(vec![Outcome::Success(1u32), Outcome::Success(2u32)]);
    let outcomes = distribute(&batch, &result, &tickets);
    assert_eq!(outcomes.len(), 20);
    assert!(outcomes.iter().all(|o| *o == Some(LoaderOutcome::Success(&2u32))));
}

#[test]
fn a_batch_closes_as_soon_as_it_is_full() {
    let mut scheduler = BatchScheduler::new(BatchPolicy { max_size: 3, delay: 1000 }).unwrap();
    let mut closed = vec![];
    for n in 0..10u64 {
        assert!(scheduler.pending() < 3);
        let (_, batch) = scheduler.submit(n.to_string(), n);
        if let Some(batch) = batch {
            assert_eq!(batch.keys.len(), 3);
            closed.push(batch);
        }
    }
    assert_eq!(closed.len(), 3);
    assert_eq!(closed[0], Batch { id: 0, keys: vec![key("0"), key("1"), key("2")] });
    assert_eq!(closed[2], Batch { id: 2, keys: vec![key("6"), key("7"), key("8")] });
    assert_eq!(scheduler.pending(), 1);
}

#[test]
fn a_batch_of_one_closes_with_every_submission() {
    let mut scheduler = BatchScheduler::new(BatchPolicy { max_size: 1, delay: 5 }).unwrap();
    let (first, closed) = scheduler.submit(key("k"), 0);
    assert_eq!(closed, Some(Batch { id: 0, keys: vec![key("k")] }));
    let (second, closed) = scheduler.submit(key("k"), 0);
    assert_eq!(closed, Some(Batch { id: 1, keys: vec![key("k")] }));
    assert_ne!(first, second);
    assert_eq!(scheduler.deadline(), None);
}

#[test]
fn without_delay_a_batch_is_due_at_the_next_opportunity() {
    let mut scheduler = BatchScheduler::new(BatchPolicy { max_size: 10, delay: 0 }).unwrap();
    assert_eq!(scheduler.tick(0), None);
    scheduler.submit(key("a"), 7);
    scheduler.submit(key("b"), 7);
    scheduler.submit(key("a"), 7);
    assert_eq!(scheduler.deadline(), Some(7));
    assert_eq!(scheduler.tick(3), Some(Batch { id: 0, keys: vec![key("a"), key("b")] }));
}

#[test]
fn the_delay_runs_from_the_first_submission() {
    let mut scheduler = BatchScheduler::new(BatchPolicy { max_size: 10, delay: 5 }).unwrap();
    assert_eq!(scheduler.deadline(), None);
    scheduler.submit(key("a"), 100);
    scheduler.submit(key("b"), 104);
    assert_eq!(scheduler.deadline(), Some(105));
    assert_eq!(scheduler.tick(104), None);
    assert_eq!(scheduler.tick(99), None);
    assert!(scheduler.tick(105).is_some());
    scheduler.submit(key("c"), u64::MAX - 1);
    assert_eq!(scheduler.deadline(), Some(u64::MAX));
    assert_eq!(scheduler.policy(), BatchPolicy { max_size: 10, delay: 5 });
}

#[test]
fn a_failure_of_one_key_leaves_the_others_alone() {
    let batch = Batch { id: 4, keys: vec![key("a"), key("b")] };
    let a = Ticket { batch: 4, slot: 0 };
    let b = Ticket { batch: 4, slot: 1 };
    let fine = BatchResult::Keyed(vec![Outcome::Success(1u32), Outcome::Success(2u32)]);
    let message = key("upstream said no");
    let broken = BatchResult::Keyed(vec![Outcome::Failure(message.clone()), Outcome::Success(2u32)]);
    assert_eq!(deliver(&batch, &fine, &b), Some(LoaderOutcome::Success(&2)));
    assert_eq!(deliver(&batch, &broken, &b), Some(LoaderOutcome::Success(&2)));
    assert_eq!(deliver(&batch, &fine, &a), Some(LoaderOutcome::Success(&1)));
    assert_eq!(deliver(&batch, &broken, &a), Some(LoaderOutcome::KeyFailure(&message)));
}

#[test]
fn a_failure_of_the_call_is_shared_by_the_batch() {
    let batch = Batch { id: 4, keys: vec![key("a"), key("b"), key("c")] };
    let message = key("connection refused");
    let result: BatchResult<u32> = BatchResult::Failed(message.clone());
    for slot in 0..3 {
        let ticket = Ticket { batch: 4, slot };
        assert_eq!(deliver(&batch, &result, &ticket), Some(LoaderOutcome::CallFailure(&message)));
    }
}

#[test]
fn a_ticket_observes_nothing_of_what_is_not_its_own() {
    let batch = Batch { id: 4, keys: vec![key("a"), key("b")] };
    let result = BatchResult::Keyed(vec![Outcome::Success(1u32)]);
    let failed: BatchResult<u32> = BatchResult::Failed(key("down"));
    assert_eq!(deliver(&batch, &result, &Ticket { batch: 5, slot: 0 }), None);
    assert_eq!(deliver(&batch, &failed, &Ticket { batch: 5, slot: 0 }), None);
    assert_eq!(deliver(&batch, &result, &Ticket { batch: 4, slot: 2 }), None);
    assert_eq!(deliver(&batch, &failed, &Ticket { batch: 4, slot: 2 }), None);
    assert_eq!(deliver(&batch, &result, &Ticket { batch: 4, slot: 1 }), None);
}

#[test]
fn a_policy_that_admits_no_key_gets_no_scheduler() {
    assert!(BatchScheduler::new(BatchPolicy { max_size: 0, delay: 5 }).is_none());
    assert!(BatchScheduler::new(BatchPolicy { max_size: 1, delay: 0 }).is_some());
}

#[test]
fn a_slot_is_filled_once() {
    let mut slot: CompletionSlot<u32> = CompletionSlot::new();
    assert!(!slot.is_fulfilled());
    slot.fulfil(3);
    assert!(slot.is_fulfilled());
    assert_eq!(slot.take(), Some(3));
    let abandoned: CompletionSlot<u32> = CompletionSlot::new();
    assert_eq!(abandoned.take(), None);
}
