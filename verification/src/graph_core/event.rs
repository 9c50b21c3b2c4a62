//! Events emitted by graph operations, and the handlers that receive them.

use vstd::prelude::*;
use crate::graph_core::graph::{GraphId, GraphType};
use crate::json::JsonValue;

verus! {

/// Events emitted by graph operations.
#[derive(Debug, Clone)]
pub enum GraphEvent {
    /// A graph was created
    GraphCreated {
        /// The graph
        graph_id: GraphId,
        /// Its type
        graph_type: GraphType,
    },
    /// A node was added
    NodeAdded {
        /// The graph
        graph_id: GraphId,
        /// The node
        node_id: String,
    },
    /// A node was removed
    NodeRemoved {
        /// The graph
        graph_id: GraphId,
        /// The node
        node_id: String,
    },
    /// An edge was added
    EdgeAdded {
        /// The graph
        graph_id: GraphId,
        /// The edge
        edge_id: String,
        /// Its source node
        source: String,
        /// Its target node
        target: String,
    },
    /// An edge was removed
    EdgeRemoved {
        /// The graph
        graph_id: GraphId,
        /// The edge
        edge_id: String,
    },
    /// All nodes and edges of a graph were removed
    GraphCleared {
        /// The graph
        graph_id: GraphId,
    },
    /// A metadata field changed
    MetadataUpdated {
        /// The graph
        graph_id: GraphId,
        /// The field
        field: String,
        /// Its value before, if any
        old_value: Option<JsonValue>,
        /// Its value after, if any
        new_value: Option<JsonValue>,
    },
}

/// Receives graph events.
pub trait EventHandler: Send + Sync {
    /// Handles an event.
    fn handle_event(&self, event: &GraphEvent);
}

} // verus!
