//! Federated resolution and batching engine of a GraphQL gateway.
//!
//! The crate holds the decisions that sit between "a resolver wants data" and
//! "an upstream call happens": how a selection set is rewritten for one
//! subgraph, how a path is followed through a resolved value, and how
//! concurrent requests are coalesced into batches.

pub mod text;
pub mod value;
pub mod path;
pub mod selection;
pub mod batch;
pub mod loader;
pub mod http_loader;
pub mod graphql_loader;
pub mod headers;
pub mod context;
pub mod blueprint;
pub mod auth;
pub mod script;

