use vstd::prelude::*;

verus! {

/// A GraphQL operation request as read off the wire: the query document,
/// an optional operation name, and the optional variables object held as
/// its JSON source text.
#[derive(Debug)]
pub struct GraphQlRequest {
    pub query: String,
    pub operation_name: Option<String>,
    pub variables: Option<String>,
}

/// The mathematical value of a request: its three fields as character
/// sequences.
pub struct RequestModel {
    pub query: Seq<char>,
    pub operation_name: Option<Seq<char>>,
    pub variables: Option<Seq<char>>,
}

impl View for GraphQlRequest {
    type V = RequestModel;

    open spec fn view(&self) -> RequestModel {
        RequestModel {
            query: self.query@,
            operation_name: match self.operation_name {
                Option::Some(s) => Option::Some(s@),
                Option::None => Option::None,
            },
            variables: match self.variables {
                Option::Some(s) => Option::Some(s@),
                Option::None => Option::None,
            },
        }
    }
}

/// The ways an HTTP request can fail to decode into a GraphQL operation
/// request. Every one of them is a transport error: it is answered with
/// HTTP status 400 and never reaches GraphQL execution.
#[derive(Clone, Copy, Debug, PartialEq, Eq, Structural)]
pub enum BadRequest {
    /// The query string has no `query` parameter.
    MissingQuery,
    /// A parameter holds a percent escape that is not `%` followed by two
    /// hex digits.
    InvalidEscape,
    /// A parameter's percent-decoded bytes are not valid UTF-8.
    InvalidUtf8,
    /// A request body that should hold a JSON object does not parse.
    InvalidJson,
    /// A request body exceeds the configured maximum size.
    BodyTooLarge,
}

} // verus!
