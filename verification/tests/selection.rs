use graphql_gateway::selection::{
    format_selection_field, format_selection_field_arguments, format_selection_set, JoinType,
    SelectionField, SubgraphFields, TypeSubgraphs,
};

fn leaf(name: &str) -> SelectionField {
    SelectionField { name: name.to_string(), arguments: Some(vec![]), selection_set: vec![] }
}

fn node(name: &str, children: Vec<SelectionField>) -> SelectionField {
    SelectionField { name: name.to_string(), arguments: Some(vec![]), selection_set: children }
}

fn with_arguments(mut field: SelectionField, arguments: Vec<(&str, &str)>) -> SelectionField {
    field.arguments =
        Some(arguments.into_iter().map(|(n, v)| (n.to_string(), v.to_string())).collect());
    field
}

fn subgraph(url: &str, fields: Vec<(&str, &str)>) -> SubgraphFields {
    SubgraphFields {
        url: url.to_string(),
        fields: fields.into_iter().map(|(n, t)| (n.to_string(), t.to_string())).collect(),
    }
}

fn join(url: Option<&str>, key: &str) -> JoinType {
    JoinType { base_url: url.map(|u| u.to_string()), key: key.to_string() }
}

fn federation() -> Vec<TypeSubgraphs> {
    vec![
        TypeSubgraphs {
            name: "Post".to_string(),
            subgraphs: vec![
                subgraph("https://a", vec![("body", "String")]),
                subgraph("https://b", vec![("title", "String"), ("author", "User")]),
            ],
            join_types: vec![],
        },
        TypeSubgraphs {
            name: "User".to_string(),
            subgraphs: vec![subgraph("https://b", vec![("name", "String")])],
            join_types: vec![join(Some("https://a"), "aid"), join(Some("https://b"), "uid")],
        },
    ]
}

#[test]
fn join_key_is_injected_behind_the_owned_fields() {
    let meta = federation();
    let out = format_selection_set(&vec![leaf("name")], Some(&meta), Some("User"), "https://b");
    assert_eq!(out, Some("{ name uid }".to_string()));
}

#[test]
fn join_key_defaults_to_id() {
    let meta = federation();
    let out = format_selection_set(&vec![leaf("title")], Some(&meta), Some("Post"), "https://b");
    assert_eq!(out, Some("{ title id }".to_string()));
}

#[test]
fn a_join_type_without_address_stands_for_the_empty_address() {
    let meta = vec![TypeSubgraphs {
        name: "User".to_string(),
        subgraphs: vec![subgraph("", vec![("name", "String")])],
        join_types: vec![join(None, "key")],
    }];
    let out = format_selection_set(&vec![leaf("name")], Some(&meta), Some("User"), "");
    assert_eq!(out, Some("{ name key }".to_string()));
}

#[test]
fn unowned_fields_give_no_selection() {
    let meta = federation();
    let set = vec![leaf("email"), node("friends", vec![leaf("name")])];
    assert_eq!(format_selection_set(&set, Some(&meta), Some("User"), "https://b"), None);
    assert_eq!(format_selection_set(&set, Some(&meta), Some("User"), "https://c"), None);
    assert_eq!(format_selection_set(&set, Some(&meta), Some("Unknown"), "https://b"), None);
}

#[test]
fn metadata_changes_with_every_level() {
    let meta = federation();
    let set = vec![
        leaf("title"),
        node("author", vec![leaf("name"), leaf("email")]),
        leaf("comments"),
    ];
    let out = format_selection_set(&set, Some(&meta), Some("Post"), "https://b");
    assert_eq!(out, Some("{ title author { name uid } id }".to_string()));
}

#[test]
fn an_owned_field_stays_when_nothing_below_it_is_owned() {
    let meta = federation();
    let set = vec![node("author", vec![leaf("email")])];
    let out = format_selection_set(&set, Some(&meta), Some("Post"), "https://b");
    assert_eq!(out, Some("{ author id }".to_string()));
}

#[test]
fn plain_selection_is_written_as_asked() {
    let set = vec![
        with_arguments(node("user", vec![leaf("name"), node("posts", vec![leaf("title")])]), vec![("id", "1")]),
        leaf("version"),
    ];
    let out = format_selection_set(&set, None, None, "https://b");
    assert_eq!(out, Some("{ user(id: 1) { name posts { title } } version }".to_string()));
}

#[test]
fn plain_formatting_is_repeatable() {
    let set = vec![with_arguments(node("user", vec![leaf("name")]), vec![("id", "1")])];
    let first = format_selection_set(&set, None, None, "https://a");
    let second = format_selection_set(&set, None, None, "https://a");
    let third = format_selection_set(&set, None, Some("User"), "https://b");
    assert_eq!(first, Some("{ user(id: 1) { name } }".to_string()));
    assert_eq!(first, second);
    assert_eq!(first, third);
}

#[test]
fn without_a_field_type_metadata_is_not_applied() {
    let meta = federation();
    let set = vec![leaf("email"), node("author", vec![leaf("email")])];
    let out = format_selection_set(&set, Some(&meta), None, "https://b");
    assert_eq!(out, Some("{ email author { email } }".to_string()));
}

#[test]
fn an_empty_selection_gives_nothing() {
    let meta = federation();
    assert_eq!(format_selection_set(&vec![], None, None, "https://b"), None);
    assert_eq!(format_selection_set(&vec![], Some(&meta), Some("User"), "https://b"), None);
}

#[test]
fn arguments_are_joined_by_commas_in_parentheses() {
    let field = with_arguments(leaf("user"), vec![("id", "1"), ("name", "\"x\""), ("tags", "[1, 2]")]);
    assert_eq!(format_selection_field_arguments(&field), "(id: 1,name: \"x\",tags: [1, 2])");
    assert_eq!(format_selection_field(&field, None, None, ""), "user(id: 1,name: \"x\",tags: [1, 2])");
}

#[test]
fn no_arguments_write_nothing() {
    assert_eq!(format_selection_field_arguments(&leaf("user")), "");
    assert_eq!(format_selection_field(&leaf("user"), None, None, ""), "user");
}

#[test]
fn unresolved_arguments_are_left_out() {
    let field = SelectionField {
        name: "user".to_string(),
        arguments: None,
        selection_set: vec![leaf("name")],
    };
    assert_eq!(format_selection_field_arguments(&field), "");
    assert_eq!(format_selection_field(&field, None, None, ""), "user { name }");
}

#[test]
fn the_first_listing_of_a_type_counts() {
    let mut meta = federation();
    meta.push(TypeSubgraphs {
        name: "User".to_string(),
        subgraphs: vec![subgraph("https://b", vec![("email", "String")])],
        join_types: vec![join(Some("https://b"), "other")],
    });
    let set = vec![leaf("name"), leaf("email")];
    let out = format_selection_set(&set, Some(&meta), Some("User"), "https://b");
    assert_eq!(out, Some("{ name uid }".to_string()));
}

#[test]
fn arguments_are_kept_on_owned_fields() {
    let meta = federation();
    let set = vec![with_arguments(node("author", vec![leaf("name")]), vec![("id", "7")])];
    let out = format_selection_set(&set, Some(&meta), Some("Post"), "https://b");
    assert_eq!(out, Some("{ author(id: 7) { name uid } id }".to_string()));
}
