//! Errors of graph operations.
//!
//! Every fallible operation returns `Result<T, GraphError>`; each error
//! carries the context that describes it.

use vstd::prelude::*;
use vstd::string::*;

verus! {

/// Errors of graph operations.
#[derive(Debug, PartialEq, Eq)]
pub enum GraphError {
    /// No node has the given id
    NodeNotFound(String),
    /// No edge has the given id
    EdgeNotFound(String),
    /// A node with the given id exists already
    DuplicateNode(String),
    /// An edge between the given nodes exists already
    DuplicateEdge {
        /// Source node id
        from: String,
        /// Target node id
        to: String,
    },
    /// A value had another type than expected
    TypeMismatch {
        /// Expected type name
        expected: String,
        /// Actual type name
        actual: String,
    },
    /// A constraint was violated
    ConstraintViolation(String),
    /// The operation is not valid in the current state
    InvalidOperation(String),
    /// The graph has not been initialized
    NotInitialized,
    /// A value could not be serialized or deserialized
    SerializationError(String),
    /// An error from outside the library
    External(String),
}

/// Result of graph operations.
pub type Result<T> = core::result::Result<T, GraphError>;

/// The message of an error, as it is displayed.
pub open spec fn error_text(e: GraphError) -> Seq<char> {
    match e {
        GraphError::NodeNotFound(s) => "Node not found: "@ + s@,
        GraphError::EdgeNotFound(s) => "Edge not found: "@ + s@,
        GraphError::DuplicateNode(s) => "Duplicate node: "@ + s@,
        GraphError::DuplicateEdge { from, to } => "Duplicate edge between nodes: "@ + from@ + " -> "@ + to@,
        GraphError::TypeMismatch { expected, actual } => "Type mismatch: expected "@ + expected@ + ", got "@ + actual@,
        GraphError::ConstraintViolation(s) => "Constraint violation: "@ + s@,
        GraphError::InvalidOperation(s) => "Invalid operation: "@ + s@,
        GraphError::NotInitialized => "Graph not initialized"@,
        GraphError::SerializationError(s) => "Serialization error: "@ + s@,
        GraphError::External(s) => "External error: "@ + s@,
    }
}

/// `prefix` followed by `s`.
fn joined(prefix: &str, s: &String) -> (r: String)
    ensures
        r@ == prefix@ + s@,
{
    String::from_str(prefix).concat(s.as_str())
}

impl GraphError {
    /// The message of this error, as it is displayed.
    pub fn to_string(&self) -> (r: String)
        ensures
            r@ == error_text(*self),
    {
        match self {
            GraphError::NodeNotFound(s) => joined("Node not found: ", s),
            GraphError::EdgeNotFound(s) => joined("Edge not found: ", s),
            GraphError::DuplicateNode(s) => joined("Duplicate node: ", s),
            GraphError::DuplicateEdge { from, to } => {
                let r = joined("Duplicate edge between nodes: ", from).concat(" -> ").concat(to.as_str());
                r
            },
            GraphError::TypeMismatch { expected, actual } => {
                let r = joined("Type mismatch: expected ", expected).concat(", got ").concat(actual.as_str());
                r
            },
            GraphError::ConstraintViolation(s) => joined("Constraint violation: ", s),
            GraphError::InvalidOperation(s) => joined("Invalid operation: ", s),
            GraphError::NotInitialized => String::from_str("Graph not initialized"),
            GraphError::SerializationError(s) => joined("Serialization error: ", s),
            GraphError::External(s) => joined("External error: ", s),
        }
    }
}

/// Declares `serde_json::Error`, the error of JSON parsing and rendering.
#[verifier::external_type_specification]
#[verifier::external_body]
pub struct ExJsonError(serde_json::Error);

/// Calls `Display` of `serde_json::Error` (through `to_string`). The text is
/// the parser's own description and position; nothing is stated of it.
#[verifier::external_body]
fn json_error_text(err: &serde_json::Error) -> (s: String) {
    err.to_string()
}

impl GraphError {
    /// The error that caused this one; a graph error is a leaf and has none.
    pub fn source(&self) -> (r: Option<&GraphError>)
        ensures
            r is None,
    {
        None
    }

    /// A serialization error that carries the text of a JSON error.
    pub fn from_json_error(err: serde_json::Error) -> (e: GraphError)
        ensures
            e is SerializationError,
    {
        GraphError::SerializationError(json_error_text(&err))
    }
}

} // verus!
