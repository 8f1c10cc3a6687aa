//! A minimal GraphQL API gateway library: the request-dispatch layer of a
//! small server. It parses GraphQL operation requests out of HTTP `GET`
//! query strings and `POST` bodies, decides between executing an operation
//! and rejecting a malformed request, and fixes the payloads of the stub
//! schema's resolvers and of the identity endpoint. The HTTP transport and
//! the GraphQL execution engine live outside this crate and call into it.

use vstd::prelude::*;

pub mod app;
pub mod dispatch;
pub mod graph;
pub mod identity;
pub mod request;
pub mod urlquery;

pub use crate::app::App;
pub use crate::dispatch::Dispatch;
pub use crate::dispatch::dispatch_get;
pub use crate::dispatch::dispatch_post;
pub use crate::dispatch::dispatch_post_raw;
pub use crate::dispatch::status_code;
pub use crate::dispatch::MAX_BODY_BYTES;
pub use crate::graph::Context;
pub use crate::graph::Mutation;
pub use crate::graph::Query;
pub use crate::identity::identity_body;
pub use crate::request::BadRequest;
pub use crate::request::GraphQlRequest;
pub use crate::request::RequestModel;
pub use crate::urlquery::parse_query_string;

verus! {

/// The identifying name of the server, as a sequence of characters.
pub open spec fn server_name() -> Seq<char> {
    "Kotoba Server"@
}

} // verus!
