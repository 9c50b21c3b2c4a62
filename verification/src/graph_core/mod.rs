//! Core graph abstractions: projections, aggregates, state machines and policies.

pub mod aggregate_projection;
pub mod cim_graph;
pub mod edge;
pub mod event;
pub mod event_driven;
pub mod event_graph;
pub mod event_sourcing;
pub mod graph;
pub mod ipld_chain;
pub mod node;
pub mod policies;
pub mod projection_engine;
pub mod state_machine;

pub use self::edge::{Edge, GenericEdge, Direction};
pub use self::event::{EventHandler, GraphEvent};
pub use self::event_sourcing::{
    EventMetadata, GraphEvent as SourcingEvent, GraphEventPayload, EventStore, MemoryEventStore,
    GraphAggregate as EventSourcedAggregate,
};
pub use self::graph::{GraphId, GraphMetadata, GraphType};
pub use self::node::{GenericNode, Node};
pub use self::cim_graph::{GraphProjection, GraphEvent as CimGraphEvent, EventData, GraphCommand};
pub use self::projection_engine::{ProjectionEngine, GenericGraphProjection, ProjectionCache};
pub use self::aggregate_projection::{GraphAggregateProjection, build_projection};
pub use self::ipld_chain::{IpldChainAggregate, Cid, IpldChainCommand, IpldChainEvent};
pub use self::state_machine::{GraphStateMachine, GraphState, WorkflowState};
pub use self::policies::{
    Policy, PolicyEngine, PolicyContext, PolicyAction, PolicyMetrics, CidGenerationPolicy,
    ProjectionUpdatePolicy, StateValidationPolicy, ChainValidationPolicy, CollaborationPolicy,
};
