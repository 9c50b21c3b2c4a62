//! Graphs as read-only projections of event streams: the projection
//! interface, the events that change graphs and the commands that request
//! changes.

use vstd::prelude::*;
use crate::error::Result;
use crate::ids::{Uuid, Timestamp};
use crate::json::JsonValue;
use crate::strmap::StrMap;

verus! {

/// A read-only view of a graph computed from events.
pub trait GraphProjection {
    /// Node type of this projection
    type Node;
    /// Edge type of this projection
    type Edge;

    /// The aggregate this projection represents.
    spec fn spec_aggregate_id(&self) -> Uuid;

    /// The sequence number of the last event applied.
    spec fn spec_version(&self) -> u64;

    /// Whether a node with this id is in the projection.
    spec fn spec_has_node(&self, node_id: Seq<char>) -> bool;

    /// Whether an edge with this id is in the projection.
    spec fn spec_has_edge(&self, edge_id: Seq<char>) -> bool;

    /// The number of nodes.
    spec fn spec_node_count(&self) -> nat;

    /// The number of edges.
    spec fn spec_edge_count(&self) -> nat;

    /// The aggregate this projection represents.
    fn aggregate_id(&self) -> (r: Uuid)
        ensures
            r == self.spec_aggregate_id(),
    ;

    /// The sequence number of the last event applied.
    fn version(&self) -> (r: u64)
        ensures
            r == self.spec_version(),
    ;

    /// The node with this id.
    fn get_node(&self, node_id: &str) -> (r: Option<&Self::Node>)
        ensures
            r is Some == self.spec_has_node(node_id@),
    ;

    /// The edge with this id.
    fn get_edge(&self, edge_id: &str) -> (r: Option<&Self::Edge>)
        ensures
            r is Some == self.spec_has_edge(edge_id@),
    ;

    /// All nodes.
    fn nodes(&self) -> (r: Vec<&Self::Node>)
        ensures
            r@.len() == self.spec_node_count(),
    ;

    /// All edges.
    fn edges(&self) -> (r: Vec<&Self::Edge>)
        ensures
            r@.len() == self.spec_edge_count(),
    ;

    /// The number of nodes.
    fn node_count(&self) -> (r: usize)
        ensures
            r == self.spec_node_count(),
    ;

    /// The number of edges.
    fn edge_count(&self) -> (r: usize)
        ensures
            r == self.spec_edge_count(),
    ;

    /// The edges from one node to another.
    fn edges_between(&self, from: &str, to: &str) -> Vec<&Self::Edge>;

    /// The ids of a node's neighbors.
    fn neighbors(&self, node_id: &str) -> Vec<&str>;
}

/// An event: the only way a graph's state changes.
#[derive(Debug, Clone)]
pub struct GraphEvent {
    /// Unique event id
    pub event_id: Uuid,
    /// The aggregate the event belongs to
    pub aggregate_id: Uuid,
    /// Sequence number in the stream
    pub sequence: u64,
    /// Subject of the stream
    pub subject: String,
    /// When it happened
    pub timestamp: Timestamp,
    /// Correlation id of related events
    pub correlation_id: Uuid,
    /// The event that caused this one
    pub causation_id: Option<Uuid>,
    /// What happened
    pub data: EventData,
}

/// Every kind of change to a graph.
#[derive(Debug, Clone)]
pub enum EventData {
    /// The graph was initialized
    GraphInitialized {
        /// Type of graph ("workflow", "ipld", ...)
        graph_type: String,
        /// Initial metadata
        metadata: StrMap<JsonValue>,
    },
    /// A node was added
    NodeAdded {
        /// Node id
        node_id: String,
        /// Node type
        node_type: String,
        /// Node data
        data: JsonValue,
    },
    /// An edge was added
    EdgeAdded {
        /// Edge id
        edge_id: String,
        /// Source node id
        source_id: String,
        /// Target node id
        target_id: String,
        /// Edge type
        edge_type: String,
        /// Edge data
        data: JsonValue,
    },
    /// A node was removed
    NodeRemoved {
        /// Node id
        node_id: String,
    },
    /// An edge was removed
    EdgeRemoved {
        /// Edge id
        edge_id: String,
    },
    /// A node's data changed
    NodeUpdated {
        /// Node id
        node_id: String,
        /// New data
        data: JsonValue,
    },
    /// An edge's data changed
    EdgeUpdated {
        /// Edge id
        edge_id: String,
        /// New data
        data: JsonValue,
    },
}

/// Requests for change; they may be rejected.
#[derive(Debug, Clone)]
pub enum GraphCommand {
    /// Initialize a graph
    InitializeGraph {
        /// The graph
        aggregate_id: Uuid,
        /// Its type
        graph_type: String,
        /// Initial metadata
        metadata: StrMap<JsonValue>,
    },
    /// Add a node
    AddNode {
        /// The graph
        aggregate_id: Uuid,
        /// Node id
        node_id: String,
        /// Node type
        node_type: String,
        /// Node data
        data: JsonValue,
    },
    /// Add an edge
    AddEdge {
        /// The graph
        aggregate_id: Uuid,
        /// Edge id
        edge_id: String,
        /// Source node id
        source_id: String,
        /// Target node id
        target_id: String,
        /// Edge type
        edge_type: String,
        /// Edge data
        data: JsonValue,
    },
    /// Remove a node
    RemoveNode {
        /// The graph
        aggregate_id: Uuid,
        /// Node id
        node_id: String,
    },
    /// Remove an edge
    RemoveEdge {
        /// The graph
        aggregate_id: Uuid,
        /// Edge id
        edge_id: String,
    },
}

/// Validates commands against a projection and produces events.
pub trait CommandHandler<P: GraphProjection> {
    /// Handles a command, giving the events it produces when it is valid.
    fn handle(&self, command: GraphCommand, projection: &P) -> Result<Vec<GraphEvent>>;
}

/// Processes events after they are committed to the stream.
pub trait EventHandler {
    /// Processes an event.
    fn handle(&mut self, event: &GraphEvent);
}

/// Builds projections from event streams.
pub trait Projector<P: GraphProjection> {
    /// Builds a projection from events.
    fn project(&self, events: Vec<GraphEvent>) -> P;

    /// Updates a projection with one more event.
    fn apply(&self, projection: &mut P, event: &GraphEvent);
}

} // verus!
