//! The identity (liveness) endpoint's payload. It depends on nothing: no
//! application state, no schema — the answer is the same fixed JSON
//! object in every state of the process.

use vstd::prelude::*;

verus! {

/// The characters of the identity payload: a JSON object holding the
/// server's name and `"ok": true`.
pub open spec fn identity_json() -> Seq<char> {
    "{\"name\":\"Kotoba Server\",\"ok\":true}"@
}

/// The body of the identity endpoint's answer. Total and constant: every
/// call returns the same payload, regardless of application or schema
/// state, and the endpoint always succeeds.
pub fn identity_body() -> (r: &'static str)
    ensures
        r@ == identity_json(),
{
    "{\"name\":\"Kotoba Server\",\"ok\":true}"
}

/// The identity payload's `name` member holds the same server name that
/// the Query root's `app` resolver returns.
pub proof fn lemma_identity_names_server()
    ensures
        identity_json().subrange(9, 22) == crate::server_name(),
{
    reveal_strlit("{\"name\":\"Kotoba Server\",\"ok\":true}");
    reveal_strlit("Kotoba Server");
    assert(identity_json().subrange(9, 22) =~= crate::server_name());
}

} // verus!
