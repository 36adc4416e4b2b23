//! The resolution context: what a resolver can read while one field of one
//! request is resolved.
//!
//! The context is a read-only view of the request and of the position in the
//! query that is being resolved. Lookups never fail: what is not there is
//! absent. The only thing a resolver can add is a diagnostic, which does not
//! abort the resolution of the field.

use vstd::prelude::*;
use vstd::slice::slice_subrange;
use std::time::Duration;
use async_graphql::ServerError;
use reqwest::header::HeaderMap;
use crate::headers::{header_get, header_text, header_to_str};
use crate::path::{get_path_value, path_value};
use crate::selection::{SelectionField, TypeSubgraphs, format_selection_set, meta_view, render_selection_set, text_view};
use crate::text::{find_pair, pair_value, views};
use crate::value::{Value, ValueView, find_entry, object_view};

verus! {

/// An error of the execution engine. The library carries such errors
/// through and never looks inside.
#[verifier::external_type_specification]
#[verifier::external_body]
pub struct ExServerError(async_graphql::ServerError);

/// The length of a duration in whole milliseconds.
pub uninterp spec fn duration_millis(duration: Duration) -> nat;

/// `Duration::from_millis` of std: a duration of that many milliseconds.
pub assume_specification[ Duration::from_millis ](millis: u64) -> (duration: Duration)
    ensures
        duration_millis(duration) == millis,
;

/// What the server is configured with: variables, as pairs of a name and a
/// value. Where a name stands more than once, its first pair counts.
#[derive(Clone, Debug, PartialEq, Eq)]
pub struct Server {
    pub vars: Vec<(String, String)>,
}

/// What belongs to one request: its headers and the configuration of the
/// server that received it.
pub struct RequestContext {
    pub req_headers: HeaderMap,
    pub server: Server,
}

/// The position in the query that is being resolved, as the execution
/// engine knows it: the value that the parent resolved to, the arguments of
/// the field under their names, and the field with what is selected below
/// it. Each is absent where the engine has none.
pub struct ResolverContext {
    pub value: Option<Value>,
    pub args: Option<Vec<(String, Value)>>,
    pub field: Option<SelectionField>,
}

/// The context of one field resolution.
pub struct EvaluationContext<'a> {
    pub req_ctx: &'a RequestContext,
    pub graphql_ctx: &'a ResolverContext,
    pub timeout: Duration,
    pub errors: Vec<ServerError>,
}

/// The value that `path` leads to among the arguments of a field: the first
/// segment names the argument, the others lead on from its value. The empty
/// path leads nowhere.
pub open spec fn argument_value(
    args: Option<Vec<(String, Value)>>,
    path: Seq<Seq<char>>,
) -> Option<ValueView> {
    match args {
        Some(entries) => if path.len() == 0 {
            None
        } else {
            path_value(ValueView::Object(object_view(entries@)), path)
        },
        None => None,
    }
}

/// The value that `path` leads to from the value of the parent.
pub open spec fn parent_value(value: Option<Value>, path: Seq<Seq<char>>) -> Option<ValueView> {
    match value {
        Some(v) => path_value(v@, path),
        None => None,
    }
}

impl ResolverContext {
    /// The context of a resolution that the engine knows nothing about.
    pub fn empty() -> (ctx: ResolverContext)
        ensures
            ctx.value is None,
            ctx.args is None,
            ctx.field is None,
    {
        ResolverContext { value: None, args: None, field: None }
    }
}

impl<'a> EvaluationContext<'a> {
    /// A context for the given request and position, with a timeout of five
    /// milliseconds and no diagnostics.
    pub fn new(req_ctx: &'a RequestContext, graphql_ctx: &'a ResolverContext) -> (ctx:
        EvaluationContext<'a>)
        ensures
            ctx.req_ctx == req_ctx,
            ctx.graphql_ctx == graphql_ctx,
            duration_millis(ctx.timeout) == 5,
            ctx.errors@.len() == 0,
    {
        EvaluationContext {
            timeout: Duration::from_millis(5),
            req_ctx,
            graphql_ctx,
            errors: Vec::new(),
        }
    }

    /// The context for another request.
    pub fn req_ctx(self, req_ctx: &'a RequestContext) -> (ctx: EvaluationContext<'a>)
        ensures
            ctx.req_ctx == req_ctx,
            ctx.graphql_ctx == self.graphql_ctx,
            ctx.timeout == self.timeout,
            ctx.errors == self.errors,
    {
        EvaluationContext {
            req_ctx,
            graphql_ctx: self.graphql_ctx,
            timeout: self.timeout,
            errors: self.errors,
        }
    }

    /// The context for another position in the query.
    pub fn graphql_ctx(self, graphql_ctx: &'a ResolverContext) -> (ctx: EvaluationContext<'a>)
        ensures
            ctx.req_ctx == self.req_ctx,
            ctx.graphql_ctx == graphql_ctx,
            ctx.timeout == self.timeout,
            ctx.errors == self.errors,
    {
        EvaluationContext {
            req_ctx: self.req_ctx,
            graphql_ctx,
            timeout: self.timeout,
            errors: self.errors,
        }
    }

    /// The context with another timeout.
    pub fn timeout(self, timeout: Duration) -> (ctx: EvaluationContext<'a>)
        ensures
            ctx.req_ctx == self.req_ctx,
            ctx.graphql_ctx == self.graphql_ctx,
            ctx.timeout == timeout,
            ctx.errors == self.errors,
    {
        EvaluationContext {
            req_ctx: self.req_ctx,
            graphql_ctx: self.graphql_ctx,
            timeout,
            errors: self.errors,
        }
    }

    /// The value that the parent resolved to.
    pub fn value(&self) -> (r: Option<&'a Value>)
        ensures
            match r {
                Some(v) => self.graphql_ctx.value == Some(*v),
                None => self.graphql_ctx.value is None,
            },
    {
        match &self.graphql_ctx.value {
            Some(v) => Some(v),
            None => None,
        }
    }

    /// Follows `path` through the arguments of the field.
    pub fn arg(&self, path: &[String]) -> (r: Option<&'a Value>)
        ensures
            match r {
                Some(v) => argument_value(self.graphql_ctx.args, views(path@)) == Some(v@),
                None => argument_value(self.graphql_ctx.args, views(path@)) is None,
            },
    {
        match &self.graphql_ctx.args {
            Some(entries) => {
                if path.len() == 0 {
                    return None;
                }
                let rest = slice_subrange(path, 1, path.len());
                assert(views(rest@) =~= views(path@).skip(1));
                match find_entry(entries, path[0].as_str()) {
                    Some(argument) => get_path_value(argument, rest),
                    None => None,
                }
            },
            None => None,
        }
    }

    /// Follows `path` through the value that the parent resolved to.
    pub fn path_value(&self, path: &[String]) -> (r: Option<&'a Value>)
        ensures
            match r {
                Some(v) => parent_value(self.graphql_ctx.value, views(path@)) == Some(v@),
                None => parent_value(self.graphql_ctx.value, views(path@)) is None,
            },
    {
        match &self.graphql_ctx.value {
            Some(v) => get_path_value(v, path),
            None => None,
        }
    }

    /// The headers of the request.
    pub fn headers(&self) -> (r: &'a HeaderMap)
        ensures
            *r == self.req_ctx.req_headers,
    {
        &self.req_ctx.req_headers
    }

    /// The text of the request header called `key`, whatever the case of its
    /// letters: absent where the request has no such header, and where its
    /// first value cannot be read as text.
    pub fn header(&self, key: &str) -> (r: Option<&'a str>)
        ensures
            text_view(r) == header_text(self.req_ctx.req_headers, key@),
    {
        match header_get(self.headers(), key) {
            Some(value) => header_to_str(value),
            None => None,
        }
    }

    /// The value of the server variable called `key`.
    pub fn var(&self, key: &str) -> (r: Option<&'a str>)
        ensures
            text_view(r) == pair_value(self.req_ctx.server.vars@, key@),
    {
        match find_pair(&self.req_ctx.server.vars, key) {
            Some(value) => Some(value.as_str()),
            None => None,
        }
    }

    /// Records a diagnostic against the execution. The resolution goes on.
    pub fn add_error(&mut self, error: ServerError)
        ensures
            final(self).errors@ == old(self).errors@.push(error),
            final(self).req_ctx == old(self).req_ctx,
            final(self).graphql_ctx == old(self).graphql_ctx,
            final(self).timeout == old(self).timeout,
    {
        self.errors.push(error);
    }

    /// Builds the sub-query for the subgraph at `url` from what is selected
    /// below the field that is being resolved. There is none where the engine
    /// knows no field, and where no selection is left for that subgraph.
    pub fn selection_set(
        &self,
        type_subgraph_fields: Option<&Vec<TypeSubgraphs>>,
        root_field_type: Option<&str>,
        url: &str,
    ) -> (r: Option<String>)
        ensures
            match self.graphql_ctx.field {
                Some(field) => match r {
                    Some(text) => render_selection_set(
                        field.selection_set@,
                        meta_view(type_subgraph_fields),
                        text_view(root_field_type),
                        url@,
                    ) == Some(text@),
                    None => render_selection_set(
                        field.selection_set@,
                        meta_view(type_subgraph_fields),
                        text_view(root_field_type),
                        url@,
                    ) is None,
                },
                None => r is None,
            },
    {
        match &self.graphql_ctx.field {
            Some(field) => format_selection_set(
                &field.selection_set,
                type_subgraph_fields,
                root_field_type,
                url,
            ),
            None => None,
        }
    }
}

} // verus!
