use cim_graph::events::graph_events::{EventPayload, GraphEvent, IpldPayload, WorkflowPayload};
use cim_graph::graph_core::aggregate_projection::{build_projection, GraphAggregateProjection};
use cim_graph::graph_core::cim_graph::{EventData, GraphEvent as ProjectionEvent, GraphProjection};
use cim_graph::graph_core::edge::GenericEdge;
use cim_graph::graph_core::event_sourcing::{
    EventMetadata, EventStore, GraphAggregate, GraphEvent as StoredEvent, GraphEventPayload,
    MemoryEventStore,
};
use cim_graph::graph_core::graph::GraphType;
use cim_graph::graph_core::node::GenericNode;
use cim_graph::graph_core::projection_engine::{GenericGraphProjection, ProjectionEngine};
use cim_graph::ids::{Timestamp, Uuid};
use cim_graph::json::JsonValue;
use cim_graph::strmap::StrMap;

type P = GenericGraphProjection<GenericNode<String>, GenericEdge<String>>;

fn stream_event(agg: Uuid, seq: u64, data: EventData) -> ProjectionEvent {
    ProjectionEvent {
        event_id: Uuid::new_v4(),
        aggregate_id: agg,
        sequence: seq,
        subject: "cim.graph.test".to_string(),
        timestamp: Timestamp { secs: seq as i64, nanos: 0 },
        correlation_id: Uuid::nil(),
        causation_id: None,
        data,
    }
}

fn node_added(id: &str) -> EventData {
    EventData::NodeAdded { node_id: id.to_string(), node_type: "t".to_string(), data: JsonValue::Null }
}

#[test]
fn law_projection_batches_compose_on_a_stream() {
    let agg = Uuid::new_v4();
    let all = vec![
        stream_event(agg, 1, EventData::GraphInitialized { graph_type: "workflow".to_string(), metadata: StrMap::new() }),
        stream_event(agg, 2, node_added("a")),
        stream_event(agg, 3, node_added("b")),
        stream_event(agg, 4, EventData::EdgeAdded {
            edge_id: "ab".to_string(),
            source_id: "a".to_string(),
            target_id: "b".to_string(),
            edge_type: "x".to_string(),
            data: JsonValue::Null,
        }),
        stream_event(agg, 5, EventData::NodeRemoved { node_id: "a".to_string() }),
    ];
    let engine: ProjectionEngine<P> = ProjectionEngine::new();
    let whole = engine.project(all.clone());
    let mut in_two = engine.project(all[..2].to_vec());
    for e in &all[2..] {
        engine.apply(&mut in_two, e);
    }
    assert_eq!(whole.version, in_two.version);
    assert_eq!(whole.graph_type, in_two.graph_type);
    assert_eq!(whole.adjacency.keys(), in_two.adjacency.keys());
    assert_eq!(whole.neighbors("b"), in_two.neighbors("b"));
    assert_eq!(whole.version, 5);
    assert_eq!(whole.graph_type, GraphType::WorkflowGraph);
    assert!(whole.adjacency.get("a").is_none());
}

#[test]
fn law_foreign_event_leaves_projection_alone() {
    let agg = Uuid::new_v4();
    let engine: ProjectionEngine<P> = ProjectionEngine::new();
    let mut p: P = GenericGraphProjection::new(agg, GraphType::Generic);
    engine.apply(&mut p, &stream_event(Uuid::new_v4(), 9, node_added("x")));
    assert_eq!(p.version, 0);
    assert_eq!(p.node_count(), 0);
    assert!(p.adjacency.is_empty());
}

fn stored(agg: Uuid, corr: Uuid, version: u64, payload: GraphEventPayload) -> StoredEvent {
    StoredEvent { metadata: EventMetadata::new(agg, corr, version, "law".to_string()), payload }
}

#[test]
fn law_replay_in_two_batches() {
    let agg = Uuid::new_v4();
    let corr = Uuid::new_v4();
    let events = vec![
        stored(agg, corr, 1, GraphEventPayload::GraphCreated {
            graph_type: GraphType::ConceptGraph,
            name: Some("G".to_string()),
            description: None,
        }),
        stored(agg, corr, 2, GraphEventPayload::NodeAdded {
            node_id: "n".to_string(),
            node_type: "t".to_string(),
            data: JsonValue::Null,
        }),
        stored(agg, corr, 3, GraphEventPayload::NodeAdded {
            node_id: "m".to_string(),
            node_type: "t".to_string(),
            data: JsonValue::Null,
        }),
    ];
    let whole = GraphAggregate::replay(agg, events.clone());
    let mut in_two = GraphAggregate::replay(agg, events[..1].to_vec());
    for e in &events[1..] {
        in_two.apply(e);
    }
    assert_eq!(whole.version(), in_two.version());
    assert_eq!(whole.node_count(), in_two.node_count());
    assert_eq!(whole.name, in_two.name);
    assert_eq!(whole.node_count(), 2);
}

#[test]
fn law_append_then_read_keeps_order() {
    let agg = Uuid::new_v4();
    let mut store = MemoryEventStore::default();
    let first = stored(agg, Uuid::new_v4(), 1, GraphEventPayload::NodeAdded {
        node_id: "a".to_string(),
        node_type: "t".to_string(),
        data: JsonValue::Null,
    });
    let second = stored(agg, Uuid::new_v4(), 2, GraphEventPayload::NodeRemoved { node_id: "a".to_string() });
    let other = stored(Uuid::new_v4(), Uuid::new_v4(), 1, GraphEventPayload::NodeRemoved { node_id: "z".to_string() });
    store.append(vec![first.clone(), other]).unwrap();
    store.append(vec![second.clone()]).unwrap();
    let read = store.get_events(agg);
    assert_eq!(read.len(), 2);
    assert_eq!(read[0].metadata.event_id, first.metadata.event_id);
    assert_eq!(read[1].metadata.event_id, second.metadata.event_id);
}

#[test]
fn law_causation_chain_runs_from_root() {
    let agg = Uuid::new_v4();
    let corr = Uuid::new_v4();
    let root = stored(agg, corr, 1, GraphEventPayload::NodeAdded {
        node_id: "a".to_string(),
        node_type: "t".to_string(),
        data: JsonValue::Null,
    });
    let child = StoredEvent {
        metadata: EventMetadata::new(agg, corr, 2, "law".to_string()).with_causation(root.metadata.event_id),
        payload: GraphEventPayload::NodeRemoved { node_id: "a".to_string() },
    };
    let grandchild = StoredEvent {
        metadata: EventMetadata::new(agg, corr, 3, "law".to_string()).with_causation(child.metadata.event_id),
        payload: GraphEventPayload::NodeRemoved { node_id: "b".to_string() },
    };
    let mut store = MemoryEventStore::default();
    store.append(vec![root.clone(), child.clone(), grandchild.clone()]).unwrap();
    let chain = store.get_causation_chain(grandchild.metadata.event_id);
    let ids: Vec<Uuid> = chain.iter().map(|e| e.metadata.event_id).collect();
    assert_eq!(ids, vec![root.metadata.event_id, child.metadata.event_id, grandchild.metadata.event_id]);
}

fn agg_event(agg: Uuid, payload: EventPayload) -> GraphEvent {
    GraphEvent { event_id: Uuid::new_v4(), aggregate_id: agg, correlation_id: Uuid::nil(), causation_id: None, payload }
}

#[test]
fn law_aggregate_projection_batches_compose() {
    let agg = Uuid::new_v4();
    let wf = Uuid::new_v4();
    let events = vec![
        (agg_event(agg, EventPayload::Workflow(WorkflowPayload::WorkflowDefined {
            workflow_id: wf,
            name: "W".to_string(),
            version: "1".to_string(),
        })), 1),
        (agg_event(agg, EventPayload::Workflow(WorkflowPayload::StateAdded {
            workflow_id: wf,
            state_id: "s".to_string(),
            state_type: "initial".to_string(),
        })), 2),
        (agg_event(agg, EventPayload::Ipld(IpldPayload::CidAdded {
            cid: "QmX".to_string(),
            codec: "raw".to_string(),
            size: 3,
            data: JsonValue::Null,
        })), 3),
    ];
    let whole = build_projection(events.clone());
    let mut in_two = GraphAggregateProjection::new(agg, whole.subject.clone());
    for (e, seq) in &events {
        in_two.apply(e, *seq);
    }
    assert_eq!(whole.version, in_two.version);
    assert_eq!(whole.components.keys(), in_two.components.keys());
    assert_eq!(whole.relationships.keys(), in_two.relationships.keys());
    assert_eq!(whole.version, 3);
}
