//! The blueprint of a schema, as far as the loaders are concerned, and the
//! step that binds a loader to every resolver that calls an upstream.
//!
//! The step runs once, when the schema is built. What it produces is not
//! changed afterwards and can be shared by all requests.

use vstd::prelude::*;
use std::time::Duration;
use crate::batch::{BatchPolicy, default_policy};
use crate::graphql_loader::GraphqlBatchLoader;
use crate::http_loader::{GroupBy, HttpBatchLoader};
use crate::text::views;
use crate::value::Value;

verus! {

/// The type of a field: a named type, or a list of a type.
#[derive(Debug, PartialEq, Eq)]
pub enum Type {
    NamedType { name: String, non_null: bool },
    ListType { of_type: Box<Type>, non_null: bool },
}

impl Type {
    /// A copy of the type.
    pub fn duplicate(&self) -> (copy: Type)
        ensures
            copy == *self,
        decreases self,
    {
        match self {
            Type::NamedType { name, non_null } => Type::NamedType {
                name: name.clone(),
                non_null: *non_null,
            },
            Type::ListType { of_type, non_null } => Type::ListType {
                of_type: Box::new(of_type.duplicate()),
                non_null: *non_null,
            },
        }
    }
}

impl Clone for Type {
    fn clone(&self) -> (copy: Type)
        ensures
            copy == *self,
    {
        self.duplicate()
    }
}

/// The request that an HTTP resolver makes, before the values of one
/// resolution are filled in.
#[derive(Clone, Debug, PartialEq, Eq)]
pub struct RequestTemplate {
    pub url: String,
    pub query: Vec<(String, String)>,
}

/// The request that a GraphQL resolver makes, before the values of one
/// resolution are filled in.
#[derive(Clone, Debug, PartialEq, Eq)]
pub struct GraphqlRequestTemplate {
    pub url: String,
    pub operation_name: String,
}

/// A resolver that reaches outside the gateway. The last part of a call to
/// an upstream is the loader that the call goes through, once one is bound.
#[derive(Clone, Debug, PartialEq, Eq)]
pub enum Unsafe {
    Http(RequestTemplate, Option<GroupBy>, Option<HttpBatchLoader>),
    GraphQLEndpoint(GraphqlRequestTemplate, String, bool, Option<GraphqlBatchLoader>),
    JS(String),
}

/// How a field gets its value.
#[derive(Clone, Debug, PartialEq, Eq)]
pub enum Expression {
    Context(Vec<String>),
    Literal(Value),
    Unsafe(Unsafe),
}

/// One field of an object type.
#[derive(Clone, Debug, PartialEq, Eq)]
pub struct FieldDefinition {
    pub name: String,
    pub of_type: Type,
    pub resolver: Option<Expression>,
}

/// An object type with its fields.
#[derive(Clone, Debug, PartialEq, Eq)]
pub struct ObjectTypeDefinition {
    pub name: String,
    pub fields: Vec<FieldDefinition>,
}

/// One definition of a schema. Only object types have resolvers.
#[derive(Clone, Debug, PartialEq, Eq)]
pub enum Definition {
    ObjectTypeDefinition(ObjectTypeDefinition),
    ScalarTypeDefinition(String),
    EnumTypeDefinition(String, Vec<String>),
}

/// What holds for all upstreams: the batch policy, where one is configured.
#[derive(Clone, Copy, Debug, PartialEq, Eq)]
pub struct Upstream {
    pub batch: Option<BatchPolicy>,
}

/// A schema before it is built.
#[derive(Clone, Debug, PartialEq, Eq)]
pub struct Blueprint {
    pub definitions: Vec<Definition>,
    pub upstream: Upstream,
}

/// Where the keys that tokens are checked against come from: a key set
/// that is written down in the configuration, or one that is fetched from an
/// address and kept for some time.
#[derive(Debug, PartialEq, Eq)]
pub enum Jwks {
    Local(String),
    Remote { url: String, max_age: Duration },
}

/// The configuration of token authentication.
#[derive(Debug, PartialEq, Eq)]
pub struct JwtProvider {
    pub jwks: Jwks,
    pub optional_kid: bool,
}

/// The configuration of basic authentication: the text of a password file.
#[derive(Clone, Debug, PartialEq, Eq)]
pub struct BasicProvider {
    pub htpasswd: String,
}

/// The policy that the loaders of a blueprint get.
pub open spec fn policy_of(upstream: Upstream) -> BatchPolicy {
    match upstream.batch {
        Some(policy) => policy,
        None => default_policy(),
    }
}

/// A grouping as the contracts see it.
pub open spec fn grouping_view(group_by: Option<GroupBy>) -> Option<Seq<Seq<char>>> {
    match group_by {
        Some(g) => Some(views(g.path@)),
        None => None,
    }
}

/// Whether `after` is the resolver `before` with its loader bound. A call
/// over HTTP gets a loader with the grouping of the call and the mark of a
/// list field; a call to a GraphQL upstream gets one that merges requests or
/// does not, as the call says. The call itself stays as it was, and any other
/// resolver is left alone.
pub open spec fn is_bound(
    before: Option<Expression>,
    after: Option<Expression>,
    is_list: bool,
    policy: BatchPolicy,
) -> bool {
    match before {
        Some(Expression::Unsafe(Unsafe::Http(template, group_by, _))) => {
            &&& after matches Some(
                Expression::Unsafe(Unsafe::Http(bound_template, bound_group_by, Some(loader))),
            )
            &&& bound_template == template
            &&& bound_group_by == group_by
            &&& grouping_view(loader.group_by) == grouping_view(group_by)
            &&& loader.is_list == is_list
            &&& loader.policy == policy
        },
        Some(Expression::Unsafe(Unsafe::GraphQLEndpoint(template, field_name, batched, _))) => {
            after == Some(
                Expression::Unsafe(
                    Unsafe::GraphQLEndpoint(
                        template,
                        field_name,
                        batched,
                        Some(GraphqlBatchLoader { use_batch_request: batched, policy }),
                    ),
                ),
            )
        },
        _ => after == before,
    }
}

/// Whether `after` is the field `before` with the loader of its resolver
/// bound.
pub open spec fn is_bound_field(
    before: FieldDefinition,
    after: FieldDefinition,
    policy: BatchPolicy,
) -> bool {
    &&& after.name == before.name
    &&& after.of_type == before.of_type
    &&& is_bound(before.resolver, after.resolver, before.of_type is ListType, policy)
}

/// Whether `after` is the definition `before` with the loaders of its
/// fields bound. Only object types change.
pub open spec fn is_bound_definition(
    before: Definition,
    after: Definition,
    policy: BatchPolicy,
) -> bool {
    match before {
        Definition::ObjectTypeDefinition(object) => {
            &&& after matches Definition::ObjectTypeDefinition(bound)
            &&& bound.name == object.name
            &&& bound.fields@.len() == object.fields@.len()
            &&& forall|j: int|
                0 <= j < object.fields@.len() ==> is_bound_field(
                    #[trigger] object.fields@[j],
                    bound.fields@[j],
                    policy,
                )
        },
        _ => after == before,
    }
}

impl GroupBy {
    /// A copy of the grouping.
    pub fn duplicate(&self) -> (copy: GroupBy)
        ensures
            views(copy.path@) == views(self.path@),
    {
        let mut path: Vec<String> = Vec::new();
        let mut i: usize = 0;
        while i < self.path.len()
            invariant
                i <= self.path.len(),
                views(path@) == views(self.path@).take(i as int),
            decreases self.path.len() - i,
        {
            let ghost before = views(path@);
            let segment = self.path[i].clone();
            path.push(segment);
            assert(views(path@) =~= before.push(self.path@[i as int]@));
            assert(before.push(self.path@[i as int]@) =~= views(self.path@).take(i as int + 1));
            i += 1;
        }
        assert(views(self.path@).take(self.path.len() as int) =~= views(self.path@));
        GroupBy { path }
    }
}

/// Binds the loader of one field.
fn assign_field(field: FieldDefinition, policy: BatchPolicy) -> (bound: FieldDefinition)
    ensures
        is_bound_field(field, bound, policy),
{
    let is_list = match &field.of_type {
        Type::ListType { .. } => true,
        _ => false,
    };
    let resolver = match field.resolver {
        Some(Expression::Unsafe(Unsafe::Http(template, group_by, _))) => {
            let grouping = match &group_by {
                Some(g) => Some(g.duplicate()),
                None => None,
            };
            let loader = HttpBatchLoader::new(grouping, is_list, policy);
            Some(Expression::Unsafe(Unsafe::Http(template, group_by, Some(loader))))
        },
        Some(Expression::Unsafe(Unsafe::GraphQLEndpoint(template, field_name, batched, _))) => {
            let loader = GraphqlBatchLoader::new(batched, policy);
            Some(
                Expression::Unsafe(
                    Unsafe::GraphQLEndpoint(template, field_name, batched, Some(loader)),
                ),
            )
        },
        other => other,
    };
    FieldDefinition { name: field.name, of_type: field.of_type, resolver }
}

/// Binds the loaders of the fields of one object type.
fn assign_fields(fields: Vec<FieldDefinition>, policy: BatchPolicy) -> (bound: Vec<
    FieldDefinition,
>)
    ensures
        bound@.len() == fields@.len(),
        forall|j: int|
            0 <= j < fields@.len() ==> is_bound_field(#[trigger] fields@[j], bound@[j], policy),
{
    let mut bound: Vec<FieldDefinition> = Vec::new();
    for field in it: fields
        invariant
            bound@.len() == it.index(),
            forall|j: int|
                0 <= j < it.index() ==> is_bound_field(#[trigger] it.seq()[j], bound@[j], policy),
    {
        bound.push(assign_field(field, policy));
    }
    bound
}

/// Binds the loaders of one definition.
fn assign_definition(definition: Definition, policy: BatchPolicy) -> (bound: Definition)
    ensures
        is_bound_definition(definition, bound, policy),
{
    match definition {
        Definition::ObjectTypeDefinition(object) => {
            let fields = assign_fields(object.fields, policy);
            Definition::ObjectTypeDefinition(ObjectTypeDefinition { name: object.name, fields })
        },
        other => other,
    }
}

/// Binds a loader to every resolver of the blueprint that calls an
/// upstream, with the batch policy of the blueprint or, where it has none,
/// the default one. Every field of every object type is visited; a loader
/// that a resolver had before is replaced. Nothing else changes.
pub fn assign_data_loaders(blueprint: &mut Blueprint)
    ensures
        final(blueprint).upstream == old(blueprint).upstream,
        final(blueprint).definitions@.len() == old(blueprint).definitions@.len(),
        forall|i: int|
            0 <= i < old(blueprint).definitions@.len() ==> is_bound_definition(
                #[trigger] old(blueprint).definitions@[i],
                final(blueprint).definitions@[i],
                policy_of(old(blueprint).upstream),
            ),
{
    let policy = match blueprint.upstream.batch {
        Some(policy) => policy,
        None => BatchPolicy::default(),
    };
    let mut definitions: Vec<Definition> = Vec::new();
    std::mem::swap(&mut blueprint.definitions, &mut definitions);
    let mut bound: Vec<Definition> = Vec::new();
    for definition in it: definitions
        invariant
            bound@.len() == it.index(),
            forall|j: int|
                0 <= j < it.index() ==> is_bound_definition(
                    #[trigger] it.seq()[j],
                    bound@[j],
                    policy,
                ),
    {
        bound.push(assign_definition(definition, policy));
    }
    blueprint.definitions = bound;
}

} // verus!
