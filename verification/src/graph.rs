use vstd::prelude::*;

use crate::app::App;

verus! {

/// Per-request execution context: carries a borrowed reference to the
/// shared application state for the duration of a single request, so that
/// resolvers can read shared state while the operation executes. It holds
/// nothing else and carries no state across requests.
pub struct Context<'a> {
    pub app: &'a App,
}

impl<'a> Context<'a> {
    /// Builds a context for one request from the shared application state.
    pub fn new(app: &'a App) -> (c: Context<'a>)
        ensures
            c.app == app,
    {
        Context { app }
    }
}

/// Root Query type of the GraphQL schema.
pub struct Query;

impl Query {
    /// Resolver of the query field `app`: the server's identifying string.
    /// Pure and side-effect-free.
    pub fn app() -> (r: &'static str)
        ensures
            r@ == crate::server_name(),
    {
        "Kotoba Server"
    }
}

/// Root Mutation type of the GraphQL schema.
pub struct Mutation;

impl Mutation {
    /// Resolver of the mutation field `noOp`: performs no state change and
    /// returns a fixed sentinel value.
    pub fn no_op() -> (r: i32)
        ensures
            r == 42,
    {
        42
    }
}

} // verus!
