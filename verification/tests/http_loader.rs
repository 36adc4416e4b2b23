use graphql_gateway::batch::{deliver, BatchPolicy, BatchResult, BatchScheduler, LoaderOutcome, Outcome};
use graphql_gateway::http_loader::{item_matches, request_key, GroupBy, HttpBatchLoader, HttpRequest};
use graphql_gateway::loader::collect_calls;
use graphql_gateway::value::Value;

fn policy() -> BatchPolicy {
    BatchPolicy { max_size: 10, delay: 5 }
}

fn request(url: &str, query: Vec<(&str, &str)>) -> HttpRequest {
    HttpRequest {
        url: url.to_string(),
        query: query.into_iter().map(|(n, v)| (n.to_string(), v.to_string())).collect(),
    }
}

fn grouping(path: Vec<&str>) -> GroupBy {
    GroupBy { path: path.into_iter().map(|s| s.to_string()).collect() }
}

fn user(id: &str, name: &str) -> Value {
    Value::Object(vec![
        ("id".to_string(), Value::Number(id.to_string())),
        ("name".to_string(), Value::String(name.to_string())),
    ])
}

fn keys(list: Vec<&str>) -> Vec<String> {
    list.into_iter().map(|s| s.to_string()).collect()
}

#[test]
fn the_key_of_a_plain_request_is_the_whole_request() {
    let loader = HttpBatchLoader::new(None, false, policy());
    assert_eq!(loader.batch_key(&request("http://x/users", vec![])), Some("http://x/users".to_string()));
    assert_eq!(
        loader.batch_key(&request("http://x/users", vec![("id", "1"), ("a", "b")])),
        Some("http://x/users?id=1&a=b".to_string())
    );
    assert_eq!(request_key(&request("http://x", vec![("q", "")])), "http://x?q=");
}

#[test]
fn the_key_of_a_grouped_request_is_its_key_parameter() {
    let loader = HttpBatchLoader::new(Some(grouping(vec!["user", "id"])), false, policy());
    assert_eq!(loader.batch_key(&request("http://x", vec![("a", "b"), ("id", "7"), ("id", "8")])), Some("7".to_string()));
    assert_eq!(loader.batch_key(&request("http://x", vec![("a", "b")])), None);
    let unnamed = HttpBatchLoader::new(Some(grouping(vec![])), false, policy());
    assert_eq!(unnamed.batch_key(&request("http://x", vec![("id", "3")])), Some("3".to_string()));
    assert_eq!(grouping(vec![]).key_name(), "id");
    assert_eq!(grouping(vec!["a", "uid"]).key_name(), "uid");
}

#[test]
fn loading_submits_the_key() {
    let loader = HttpBatchLoader::new(Some(grouping(vec!["id"])), false, policy());
    let mut scheduler = BatchScheduler::new(loader.policy).unwrap();
    let (one, _) = loader.load(&mut scheduler, &request("http://x", vec![("id", "1")]), 0).unwrap();
    let (two, _) = loader.load(&mut scheduler, &request("http://x", vec![("id", "2")]), 0).unwrap();
    let (again, _) = loader.load(&mut scheduler, &request("http://x", vec![("id", "1")]), 1).unwrap();
    assert_eq!(one, again);
    assert_ne!(one, two);
    assert!(loader.load(&mut scheduler, &request("http://x", vec![]), 1).is_none());
    assert_eq!(scheduler.pending(), 2);
    assert_eq!(scheduler.tick(5).unwrap().keys, keys(vec!["1", "2"]));
}

#[test]
fn one_request_asks_for_all_keys() {
    let group = grouping(vec!["id"]);
    let base = request("http://x/users", vec![("id", "1"), ("fields", "name"), ("id", "9")]);
    let merged = group.merged_request(&base, &keys(vec!["1", "2", "3"]));
    assert_eq!(
        merged,
        request("http://x/users", vec![("fields", "name"), ("id", "1"), ("id", "2"), ("id", "3")])
    );
    assert_eq!(group.merged_request(&base, &vec![]), request("http://x/users", vec![("fields", "name")]));
}

#[test]
fn an_answer_is_split_by_key_for_a_list_field() {
    let body = Value::List(vec![user("1", "a"), user("2", "b"), user("1", "c"), Value::Null]);
    let out = grouping(vec!["id"]).split_response(&body, &keys(vec!["1", "2", "3"]), true);
    assert_eq!(
        out,
        vec![
            Outcome::Success(Value::List(vec![user("1", "a"), user("1", "c")])),
            Outcome::Success(Value::List(vec![user("2", "b")])),
            Outcome::Success(Value::List(vec![])),
        ]
    );
}

#[test]
fn an_answer_is_split_by_key_for_a_single_field() {
    let body = Value::List(vec![user("1", "a"), user("2", "b"), user("1", "c")]);
    let out = grouping(vec!["id"]).split_response(&body, &keys(vec!["1", "2", "3"]), false);
    assert_eq!(
        out,
        vec![
            Outcome::Success(user("1", "a")),
            Outcome::Success(user("2", "b")),
            Outcome::Success(Value::Null),
        ]
    );
    let single = grouping(vec!["id"]).split_response(&user("2", "b"), &keys(vec!["2", "1"]), false);
    assert_eq!(single, vec![Outcome::Success(user("2", "b")), Outcome::Success(Value::Null)]);
}

#[test]
fn keys_are_matched_against_texts_numbers_and_booleans() {
    let path = vec!["k".to_string()];
    let item = |v: Value| Value::Object(vec![("k".to_string(), v)]);
    assert!(item_matches(&item(Value::String("7".to_string())), &path, "7"));
    assert!(item_matches(&item(Value::Number("7".to_string())), &path, "7"));
    assert!(item_matches(&item(Value::Boolean(true)), &path, "true"));
    assert!(item_matches(&item(Value::Boolean(false)), &path, "false"));
    assert!(!item_matches(&item(Value::Boolean(false)), &path, "true"));
    assert!(!item_matches(&item(Value::Null), &path, "null"));
    assert!(!item_matches(&item(Value::Enum("7".to_string())), &path, "7"));
    assert!(!item_matches(&item(Value::Number("7".to_string())), &path, "8"));
    assert!(!item_matches(&Value::Null, &path, "7"));
    assert!(item_matches(&Value::String("x".to_string()), &vec![], "x"));
}

#[test]
fn a_failed_call_for_all_keys_fails_the_batch() {
    let loader = HttpBatchLoader::new(Some(grouping(vec!["id"])), true, policy());
    let failed = loader.collect_merged(&keys(vec!["1", "2"]), &Err("timeout".to_string()));
    assert_eq!(failed, BatchResult::Failed("timeout".to_string()));
    let body = Value::List(vec![user("2", "b")]);
    let answered = loader.collect_merged(&keys(vec!["1", "2"]), &Ok(body));
    assert_eq!(
        answered,
        BatchResult::Keyed(vec![
            Outcome::Success(Value::List(vec![])),
            Outcome::Success(Value::List(vec![user("2", "b")])),
        ])
    );
}

#[test]
fn calls_of_their_own_fail_alone() {
    let responses = vec![Ok(user("1", "a")), Err("503".to_string()), Ok(Value::Null)];
    let result = collect_calls(&responses);
    assert_eq!(
        result,
        BatchResult::Keyed(vec![
            Outcome::Success(user("1", "a")),
            Outcome::Failure("503".to_string()),
            Outcome::Success(Value::Null),
        ])
    );
    let mut scheduler = BatchScheduler::new(BatchPolicy { max_size: 3, delay: 0 }).unwrap();
    let (a, _) = scheduler.submit("a".to_string(), 0);
    let (b, _) = scheduler.submit("b".to_string(), 0);
    let (c, batch) = scheduler.submit("c".to_string(), 0);
    let batch = batch.unwrap();
    assert_eq!(deliver(&batch, &result, &a), Some(LoaderOutcome::Success(&user("1", "a"))));
    assert_eq!(deliver(&batch, &result, &b), Some(LoaderOutcome::KeyFailure(&"503".to_string())));
    assert_eq!(deliver(&batch, &result, &c), Some(LoaderOutcome::Success(&Value::Null)));
}

#[test]
fn a_copy_of_a_value_equals_the_value() {
    let value = Value::Object(vec![
        ("a".to_string(), Value::List(vec![Value::Null, Value::Boolean(true), Value::Binary(vec![1, 2, 3])])),
        ("b".to_string(), Value::Enum("RED".to_string())),
        ("c".to_string(), user("1", "x")),
    ]);
    assert_eq!(value.duplicate(), value);
}
