//! The event-driven graph: commands are requests, events are facts, and the
//! projection changes only by applying events.

use vstd::prelude::*;
use vstd::string::*;
use crate::graph_core::edge::Edge;
use crate::graph_core::graph::{GraphType, graph_type_name};
use crate::graph_core::projection_engine::{edges_not_touching, remove_edges_touching};
use crate::ids::{Uuid, Timestamp};
use crate::json::JsonValue;
use crate::strmap::StrMap;

verus! {

/// Requests to change a graph; they may be rejected.
#[derive(Debug, Clone)]
pub enum GraphCommand {
    /// Create a graph
    CreateGraph {
        /// The graph
        graph_id: Uuid,
        /// Its type
        graph_type: GraphType,
        /// Its name, if any
        name: Option<String>,
    },
    /// Add a node
    AddNode {
        /// The graph
        graph_id: Uuid,
        /// Node id
        node_id: String,
        /// Node type
        node_type: String,
        /// Node data
        data: JsonValue,
    },
    /// Add an edge
    AddEdge {
        /// The graph
        graph_id: Uuid,
        /// Edge id
        edge_id: String,
        /// Source node id
        source_id: String,
        /// Target node id
        target_id: String,
        /// Edge type
        edge_type: String,
        /// Edge data
        data: JsonValue,
    },
    /// Remove a node
    RemoveNode {
        /// The graph
        graph_id: Uuid,
        /// Node id
        node_id: String,
    },
    /// Remove an edge
    RemoveEdge {
        /// The graph
        graph_id: Uuid,
        /// Edge id
        edge_id: String,
    },
}

/// A fact: something that happened to a graph.
#[derive(Debug, Clone)]
pub struct GraphEvent {
    /// Unique event id
    pub event_id: Uuid,
    /// Sequence number in the stream
    pub sequence: u64,
    /// Subject of the stream
    pub subject: String,
    /// When it happened
    pub timestamp: Timestamp,
    /// The aggregate it belongs to
    pub aggregate_id: Uuid,
    /// Correlation id of related events
    pub correlation_id: Uuid,
    /// The event that caused this one
    pub causation_id: Option<Uuid>,
    /// What happened
    pub data: EventData,
}

/// The only ways a graph changes.
#[derive(Debug, Clone)]
pub enum EventData {
    /// The graph was created
    GraphCreated {
        /// Its type
        graph_type: GraphType,
        /// Its name, if any
        name: Option<String>,
    },
    /// A node was added
    NodeAdded {
        /// Node id
        node_id: String,
        /// Node type
        node_type: String,
        /// Node data
        data: JsonValue,
    },
    /// An edge was added
    EdgeAdded {
        /// Edge id
        edge_id: String,
        /// Source node id
        source_id: String,
        /// Target node id
        target_id: String,
        /// Edge type
        edge_type: String,
        /// Edge data
        data: JsonValue,
    },
    /// A node was removed
    NodeRemoved {
        /// Node id
        node_id: String,
    },
    /// An edge was removed
    EdgeRemoved {
        /// Edge id
        edge_id: String,
    },
}

/// A node of the projection.
#[derive(Debug, Clone)]
pub struct NodeProjection {
    /// Node id
    pub node_id: String,
    /// Node type
    pub node_type: String,
    /// Node data
    pub data: JsonValue,
    /// When it was added
    pub created_at: Timestamp,
    /// The event that added it
    pub created_by_event: Uuid,
}

/// An edge of the projection.
#[derive(Debug, Clone)]
pub struct EdgeProjection {
    /// Edge id
    pub edge_id: String,
    /// Source node id
    pub source_id: String,
    /// Target node id
    pub target_id: String,
    /// Edge type
    pub edge_type: String,
    /// Edge data
    pub data: JsonValue,
    /// When it was added
    pub created_at: Timestamp,
    /// The event that added it
    pub created_by_event: Uuid,
}

impl Edge for EdgeProjection {
    open spec fn spec_id(&self) -> Seq<char> {
        self.edge_id@
    }

    open spec fn spec_source(&self) -> Seq<char> {
        self.source_id@
    }

    open spec fn spec_target(&self) -> Seq<char> {
        self.target_id@
    }

    fn id(&self) -> (r: String) {
        self.edge_id.clone()
    }

    fn source(&self) -> (r: String) {
        self.source_id.clone()
    }

    fn target(&self) -> (r: String) {
        self.target_id.clone()
    }
}

/// The read-only graph computed from an event stream.
#[derive(Debug)]
pub struct GraphProjection {
    /// The aggregate
    pub aggregate_id: Uuid,
    /// Type of graph
    pub graph_type: GraphType,
    /// Sequence number of the last event applied
    pub version: u64,
    /// Nodes by id
    pub nodes: StrMap<NodeProjection>,
    /// Edges by id
    pub edges: StrMap<EdgeProjection>,
}

/// The content of an event-driven projection.
pub struct ProjectionView {
    pub aggregate_id: Uuid,
    pub graph_type: GraphType,
    pub version: u64,
    pub nodes: Map<Seq<char>, NodeProjection>,
    pub edges: Map<Seq<char>, EdgeProjection>,
}

impl View for GraphProjection {
    type V = ProjectionView;

    open spec fn view(&self) -> ProjectionView {
        ProjectionView {
            aggregate_id: self.aggregate_id,
            graph_type: self.graph_type,
            version: self.version,
            nodes: self.nodes@,
            edges: self.edges@,
        }
    }
}

/// What one event does to a projection: the version follows the event;
/// added nodes and edges record the event's id and time; removing a node
/// removes the edges that touch it.
pub open spec fn apply_event(p: ProjectionView, e: GraphEvent) -> ProjectionView {
    let q = ProjectionView { version: e.sequence, ..p };
    match e.data {
        EventData::GraphCreated { graph_type, .. } => ProjectionView { graph_type, ..q },
        EventData::NodeAdded { node_id, node_type, data } => ProjectionView {
            nodes: q.nodes.insert(node_id@, NodeProjection {
                node_id, node_type, data, created_at: e.timestamp, created_by_event: e.event_id,
            }),
            ..q
        },
        EventData::EdgeAdded { edge_id, source_id, target_id, edge_type, data } => ProjectionView {
            edges: q.edges.insert(edge_id@, EdgeProjection {
                edge_id, source_id, target_id, edge_type, data, created_at: e.timestamp, created_by_event: e.event_id,
            }),
            ..q
        },
        EventData::NodeRemoved { node_id } => ProjectionView {
            nodes: q.nodes.remove(node_id@),
            edges: edges_not_touching(q.edges, node_id@),
            ..q
        },
        EventData::EdgeRemoved { edge_id } => ProjectionView { edges: q.edges.remove(edge_id@), ..q },
    }
}

/// The left fold of `apply_event` over events.
pub open spec fn apply_events(p: ProjectionView, events: Seq<GraphEvent>) -> ProjectionView
    decreases events.len(),
{
    if events.len() == 0 {
        p
    } else {
        apply_event(apply_events(p, events.drop_last()), events.last())
    }
}

/// The content of an empty projection of an aggregate.
pub open spec fn empty_view(aggregate_id: Uuid) -> ProjectionView {
    ProjectionView {
        aggregate_id,
        graph_type: GraphType::Generic,
        version: 0,
        nodes: Map::empty(),
        edges: Map::empty(),
    }
}

impl GraphProjection {
    /// An empty generic projection of an aggregate at version 0.
    pub fn new(aggregate_id: Uuid) -> (p: Self)
        ensures
            p@ == empty_view(aggregate_id),
    {
        GraphProjection {
            aggregate_id,
            graph_type: GraphType::Generic,
            version: 0,
            nodes: StrMap::new(),
            edges: StrMap::new(),
        }
    }

    /// Applies an event; this is the only way a projection changes.
    pub fn apply(&mut self, event: &GraphEvent)
        ensures
            final(self)@ == apply_event(old(self)@, *event),
    {
        self.version = event.sequence;
        match &event.data {
            EventData::GraphCreated { graph_type, .. } => {
                self.graph_type = *graph_type;
            },
            EventData::NodeAdded { node_id, node_type, data } => {
                self.nodes.insert(node_id.clone(), NodeProjection {
                    node_id: node_id.clone(),
                    node_type: node_type.clone(),
                    data: data.clone(),
                    created_at: event.timestamp,
                    created_by_event: event.event_id,
                });
            },
            EventData::EdgeAdded { edge_id, source_id, target_id, edge_type, data } => {
                self.edges.insert(edge_id.clone(), EdgeProjection {
                    edge_id: edge_id.clone(),
                    source_id: source_id.clone(),
                    target_id: target_id.clone(),
                    edge_type: edge_type.clone(),
                    data: data.clone(),
                    created_at: event.timestamp,
                    created_by_event: event.event_id,
                });
            },
            EventData::NodeRemoved { node_id } => {
                self.nodes.remove(node_id.as_str());
                remove_edges_touching(&mut self.edges, node_id.as_str());
            },
            EventData::EdgeRemoved { edge_id } => {
                self.edges.remove(edge_id.as_str());
            },
        }
    }

    /// Rebuilds the projection of an aggregate from its events, in order.
    pub fn from_events(aggregate_id: Uuid, events: Vec<GraphEvent>) -> (p: Self)
        ensures
            p@ == apply_events(empty_view(aggregate_id), events@),
    {
        let mut projection = GraphProjection::new(aggregate_id);
        let mut i: usize = 0;
        while i < events.len()
            invariant
                i <= events@.len(),
                projection@ == apply_events(empty_view(aggregate_id), events@.take(i as int)),
            decreases events@.len() - i,
        {
            projection.apply(&events[i]);
            assert(events@.take(i + 1).drop_last() =~= events@.take(i as int));
            i = i + 1;
        }
        assert(events@.take(events@.len() as int) =~= events@);
        projection
    }
}

/// Validates commands against a projection and produces events; a rejected
/// command is answered with a message.
pub trait CommandHandler {
    /// Handles a command, giving the events to append to the stream.
    fn handle(&self, command: GraphCommand, projection: &GraphProjection) -> core::result::Result<Vec<GraphEvent>, String>;
}

/// Reacts to events after they are committed to the stream.
pub trait EventHandler {
    /// Handles an event.
    fn handle(&mut self, event: &GraphEvent);
}

/// The subject of a graph event: `cim.graph.{type}.{event}`, where the event
/// type may itself hold several dot-separated segments.
pub open spec fn subject_text(graph_type: GraphType, event_type: Seq<char>) -> Seq<char> {
    "cim.graph."@ + graph_type_name(graph_type) + "."@ + event_type
}

/// The subject of a graph event of a type, `cim.graph.{type}.{event}`.
pub fn build_subject(graph_type: GraphType, event_type: &str) -> (s: String)
    ensures
        s@ == subject_text(graph_type, event_type@),
{
    let mut s = String::from_str("cim.graph.");
    s.append(graph_type.as_str());
    s.append(".");
    s.append(event_type);
    proof { reveal_strlit("cim.graph."); reveal_strlit("."); }
    s
}

/// Applying events in two batches gives the projection of all of them.
pub proof fn law_batches_compose(p: ProjectionView, a: Seq<GraphEvent>, b: Seq<GraphEvent>)
    ensures
        apply_events(p, a + b) == apply_events(apply_events(p, a), b),
    decreases b.len(),
{
    if b.len() == 0 {
        assert(a + b =~= a);
    } else {
        law_batches_compose(p, a, b.drop_last());
        assert((a + b).drop_last() =~= a + b.drop_last());
        assert((a + b).last() == b.last());
    }
}

/// Removing a node removes it and every edge that touches it.
pub proof fn law_node_removal_cascades(p: ProjectionView, event: GraphEvent, node_id: Seq<char>)
    requires
        event.data matches EventData::NodeRemoved { node_id: n } && n@ == node_id,
    ensures
        !apply_event(p, event).nodes.contains_key(node_id),
        forall|k: Seq<char>| #[trigger] apply_event(p, event).edges.contains_key(k) ==>
            apply_event(p, event).edges[k].source_id@ != node_id && apply_event(p, event).edges[k].target_id@ != node_id,
{
}

} // verus!
