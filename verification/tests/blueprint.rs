use graphql_gateway::batch::BatchPolicy;
use graphql_gateway::blueprint::{
    assign_data_loaders, Blueprint, Definition, Expression, FieldDefinition,
    GraphqlRequestTemplate, ObjectTypeDefinition, RequestTemplate, Type, Unsafe, Upstream,
};
use graphql_gateway::graphql_loader::GraphqlBatchLoader;
use graphql_gateway::http_loader::{GroupBy, HttpBatchLoader};
use graphql_gateway::value::Value;

fn named(name: &str) -> Type {
    Type::NamedType { name: name.to_string(), non_null: false }
}

fn list(of: Type) -> Type {
    Type::ListType { of_type: Box::new(of), non_null: false }
}

fn template() -> RequestTemplate {
    RequestTemplate { url: "http://x/users".to_string(), query: vec![("id".to_string(), "{{value.id}}".to_string())] }
}

fn upstream_template() -> GraphqlRequestTemplate {
    GraphqlRequestTemplate { url: "http://g/graphql".to_string(), operation_name: "user".to_string() }
}

fn field(name: &str, of_type: Type, resolver: Option<Expression>) -> FieldDefinition {
    FieldDefinition { name: name.to_string(), of_type, resolver }
}

fn http(group_by: Option<GroupBy>, loader: Option<HttpBatchLoader>) -> Option<Expression> {
    Some(Expression::Unsafe(Unsafe::Http(template(), group_by, loader)))
}

fn graphql(batched: bool, loader: Option<GraphqlBatchLoader>) -> Option<Expression> {
    Some(Expression::Unsafe(Unsafe::GraphQLEndpoint(
        upstream_template(),
        "user".to_string(),
        batched,
        loader,
    )))
}

fn blueprint(batch: Option<BatchPolicy>, resolvers: Vec<(&str, Type, Option<Expression>)>) -> Blueprint {
    Blueprint {
        definitions: vec![
            Definition::ScalarTypeDefinition("Date".to_string()),
            Definition::ObjectTypeDefinition(ObjectTypeDefinition {
                name: "Query".to_string(),
                fields: resolvers.into_iter().map(|(n, t, r)| field(n, t, r)).collect(),
            }),
            Definition::EnumTypeDefinition("Color".to_string(), vec!["RED".to_string()]),
            Definition::ObjectTypeDefinition(ObjectTypeDefinition { name: "Empty".to_string(), fields: vec![] }),
        ],
        upstream: Upstream { batch },
    }
}

#[test]
fn loaders_are_bound_to_upstream_calls() {
    let policy = BatchPolicy { max_size: 7, delay: 3 };
    let group = GroupBy { path: vec!["id".to_string()] };
    let stale = HttpBatchLoader::new(None, true, BatchPolicy { max_size: 1, delay: 1 });
    let mut before = blueprint(
        Some(policy),
        vec![
            ("users", list(named("User")), http(Some(group.clone()), None)),
            ("user", named("User"), http(None, Some(stale))),
            ("remote", named("User"), graphql(true, None)),
            ("plain", list(named("User")), graphql(false, None)),
            ("script", named("Int"), Some(Expression::Unsafe(Unsafe::JS("x => x".to_string())))),
            ("literal", named("Int"), Some(Expression::Literal(Value::Number("1".to_string())))),
            ("context", named("Int"), Some(Expression::Context(vec!["value".to_string()]))),
            ("bare", named("Int"), None),
        ],
    );
    assign_data_loaders(&mut before);
    let after = blueprint(
        Some(policy),
        vec![
            (
                "users",
                list(named("User")),
                http(Some(group.clone()), Some(HttpBatchLoader::new(Some(group), true, policy))),
            ),
            ("user", named("User"), http(None, Some(HttpBatchLoader::new(None, false, policy)))),
            ("remote", named("User"), graphql(true, Some(GraphqlBatchLoader::new(true, policy)))),
            ("plain", list(named("User")), graphql(false, Some(GraphqlBatchLoader::new(false, policy)))),
            ("script", named("Int"), Some(Expression::Unsafe(Unsafe::JS("x => x".to_string())))),
            ("literal", named("Int"), Some(Expression::Literal(Value::Number("1".to_string())))),
            ("context", named("Int"), Some(Expression::Context(vec!["value".to_string()]))),
            ("bare", named("Int"), None),
        ],
    );
    assert_eq!(before, after);
}

#[test]
fn loaders_get_the_default_policy_where_none_is_configured() {
    let mut before = blueprint(None, vec![("user", named("User"), graphql(true, None))]);
    assign_data_loaders(&mut before);
    let policy = BatchPolicy { max_size: 100, delay: 0 };
    assert_eq!(BatchPolicy::default(), policy);
    let after = blueprint(
        None,
        vec![("user", named("User"), graphql(true, Some(GraphqlBatchLoader::new(true, policy))))],
    );
    assert_eq!(before, after);
}

#[test]
fn binding_twice_changes_nothing_more() {
    let mut once = blueprint(
        None,
        vec![("users", list(named("User")), http(Some(GroupBy { path: vec![] }), None))],
    );
    assign_data_loaders(&mut once);
    let mut twice = blueprint(
        None,
        vec![("users", list(named("User")), http(Some(GroupBy { path: vec![] }), None))],
    );
    assign_data_loaders(&mut twice);
    assign_data_loaders(&mut twice);
    assert_eq!(once, twice);
}
