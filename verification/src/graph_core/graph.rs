//! Types that describe graph projections: graph type, id and metadata.

use vstd::prelude::*;
use vstd::string::*;
use crate::ids::{Uuid, Timestamp, uuid_nibble};
use crate::json::JsonValue;
use crate::strmap::StrMap;

verus! {

/// Graph types with their semantics.
#[derive(Debug, Clone, Copy, PartialEq, Eq, Structural, Hash)]
pub enum GraphType {
    /// No specific semantics
    Generic,
    /// Content-addressed graph (IPLD)
    IpldGraph,
    /// Domain object relationships (DDD)
    ContextGraph,
    /// State machine graph
    WorkflowGraph,
    /// Semantic reasoning graph
    ConceptGraph,
    /// Composition of several graphs
    ComposedGraph,
}

/// The name of a graph type.
pub open spec fn graph_type_name(t: GraphType) -> Seq<char> {
    match t {
        GraphType::Generic => "generic"@,
        GraphType::IpldGraph => "ipld"@,
        GraphType::ContextGraph => "context"@,
        GraphType::WorkflowGraph => "workflow"@,
        GraphType::ConceptGraph => "concept"@,
        GraphType::ComposedGraph => "composed"@,
    }
}

impl GraphType {
    /// The name of this graph type.
    pub fn as_str(&self) -> (s: &'static str)
        ensures
            s@ == graph_type_name(*self),
    {
        match self {
            GraphType::Generic => "generic",
            GraphType::IpldGraph => "ipld",
            GraphType::ContextGraph => "context",
            GraphType::WorkflowGraph => "workflow",
            GraphType::ConceptGraph => "concept",
            GraphType::ComposedGraph => "composed",
        }
    }
}

/// Unique identifier of a graph (an aggregate).
#[derive(Debug, Clone, Copy, PartialEq, Eq, Structural, Hash)]
pub struct GraphId(pub Uuid);

impl GraphId {
    /// A new random graph id: a version 4 UUID.
    pub fn new() -> (g: GraphId)
        ensures
            uuid_nibble(g.0.0, 12) == 4,
    {
        GraphId(Uuid::new_v4())
    }

    /// A new random graph id: a version 4 UUID.
    pub fn default() -> (g: GraphId)
        ensures
            uuid_nibble(g.0.0, 12) == 4,
    {
        GraphId::new()
    }
}

/// Metadata of a graph projection.
#[derive(Debug, Clone)]
pub struct GraphMetadata {
    /// Human-readable name
    pub name: Option<String>,
    /// Purpose of the graph
    pub description: Option<String>,
    /// Creation time (from the first event)
    pub created_at: Timestamp,
    /// Last modification time (from the last event)
    pub updated_at: Timestamp,
    /// Version
    pub version: String,
    /// Further properties from events
    pub properties: StrMap<JsonValue>,
}

impl GraphMetadata {
    /// Metadata with no name, description or properties, version "1.0.0",
    /// created and updated now.
    pub fn default() -> (m: GraphMetadata)
        ensures
            m.name is None,
            m.description is None,
            m.created_at == m.updated_at,
            m.version@ == "1.0.0"@,
            m.properties@ == Map::<Seq<char>, JsonValue>::empty(),
    {
        let now = Timestamp::now();
        GraphMetadata {
            name: None,
            description: None,
            created_at: now,
            updated_at: now,
            version: String::from_str("1.0.0"),
            properties: StrMap::new(),
        }
    }
}

} // verus!
