use cim_graph::graph_core::event_sourcing::{
    EventMetadata, EventStore, GraphAggregate, GraphEvent, GraphEventPayload, MemoryEventStore,
};
use cim_graph::graph_core::graph::GraphType;
use cim_graph::ids::Uuid;
use cim_graph::json::{JsonNumber, JsonValue};

trait IntoJson {
    fn into_json(self) -> JsonValue;
}
impl IntoJson for JsonValue {
    fn into_json(self) -> JsonValue {
        self
    }
}
impl IntoJson for &JsonValue {
    fn into_json(self) -> JsonValue {
        self.clone()
    }
}
impl IntoJson for &str {
    fn into_json(self) -> JsonValue {
        JsonValue::from_str(self)
    }
}
impl IntoJson for String {
    fn into_json(self) -> JsonValue {
        JsonValue::from_str(&self)
    }
}
impl IntoJson for &String {
    fn into_json(self) -> JsonValue {
        JsonValue::from_str(self)
    }
}
impl IntoJson for bool {
    fn into_json(self) -> JsonValue {
        JsonValue::Bool(self)
    }
}
impl IntoJson for i32 {
    fn into_json(self) -> JsonValue {
        JsonValue::from_i64(self as i64)
    }
}
impl IntoJson for i64 {
    fn into_json(self) -> JsonValue {
        JsonValue::from_i64(self)
    }
}
impl IntoJson for u32 {
    fn into_json(self) -> JsonValue {
        JsonValue::from_u64(self as u64)
    }
}
impl IntoJson for u64 {
    fn into_json(self) -> JsonValue {
        JsonValue::from_u64(self)
    }
}
impl IntoJson for usize {
    fn into_json(self) -> JsonValue {
        JsonValue::from_u64(self as u64)
    }
}
impl IntoJson for f64 {
    fn into_json(self) -> JsonValue {
        JsonValue::Number(JsonNumber::Float(serde_json::Number::from_f64(self).unwrap()))
    }
}

fn as_real(v: &JsonValue) -> f64 {
    match v {
        JsonValue::Number(JsonNumber::Float(n)) => n.as_f64().unwrap(),
        JsonValue::Number(JsonNumber::PosInt(n)) => *n as f64,
        JsonValue::Number(JsonNumber::NegInt(n)) => *n as f64,
        _ => panic!("not a number"),
    }
}

fn j<T: IntoJson>(v: T) -> JsonValue {
    v.into_json()
}

fn obj(members: Vec<(&str, JsonValue)>) -> JsonValue {
    JsonValue::object(members.into_iter().map(|(k, v)| (k.to_string(), v)).collect())
}

fn arr(items: Vec<JsonValue>) -> JsonValue {
    JsonValue::array(items)
}
#[test]
fn test_event_correlation_and_causation() {
    let aggregate_id = Uuid::new_v4();
    let correlation_id = Uuid::new_v4();
    
    // Create initial event
    let create_metadata = EventMetadata::new(
        aggregate_id,
        correlation_id,
        1,
        "test-user".to_string()
    );
    
    let create_event = GraphEvent {
        metadata: create_metadata.clone(),
        payload: GraphEventPayload::GraphCreated {
            graph_type: GraphType::WorkflowGraph,
            name: Some("Test Workflow".to_string()),
            description: None,
        },
    };
    
    // Create correlated event with causation
    let add_node_metadata = EventMetadata::new(
        aggregate_id,
        correlation_id,
        2,
        "test-user".to_string()
    ).with_causation(create_metadata.event_id);
    
    let add_node_event = GraphEvent {
        metadata: add_node_metadata.clone(),
        payload: GraphEventPayload::NodeAdded {
            node_id: "start".to_string(),
            node_type: "StartNode".to_string(),
            data: obj(vec![("label", j("Start"))]),
        },
    };
    
    // Test event store
    let mut store = MemoryEventStore::default();
    store.append(vec![create_event.clone(), add_node_event.clone()]).unwrap();
    
    // Test correlation
    let correlated = store.get_correlated_events(correlation_id);
    assert_eq!(correlated.len(), 2);
    assert_eq!(correlated[0].metadata.version, 1);
    assert_eq!(correlated[1].metadata.version, 2);
    
    // Test causation chain
    let chain = store.get_causation_chain(add_node_metadata.event_id);
    assert_eq!(chain.len(), 2);
    assert_eq!(chain[0].metadata.event_id, create_metadata.event_id);
    assert_eq!(chain[1].metadata.event_id, add_node_metadata.event_id);
}

#[test]
fn test_aggregate_replay() {
    let aggregate_id = Uuid::new_v4();
    let correlation_id = Uuid::new_v4();
    
    let events = vec![
        GraphEvent {
            metadata: EventMetadata::new(aggregate_id, correlation_id, 1, "test".to_string()),
            payload: GraphEventPayload::GraphCreated {
                graph_type: GraphType::Generic,
                name: Some("Test".to_string()),
                description: None,
            },
        },
        GraphEvent {
            metadata: EventMetadata::new(aggregate_id, correlation_id, 2, "test".to_string()),
            payload: GraphEventPayload::NodeAdded {
                node_id: "n1".to_string(),
                node_type: "Node".to_string(),
                data: obj(vec![]),
            },
        },
        GraphEvent {
            metadata: EventMetadata::new(aggregate_id, correlation_id, 3, "test".to_string()),
            payload: GraphEventPayload::NodeAdded {
                node_id: "n2".to_string(),
                node_type: "Node".to_string(),
                data: obj(vec![]),
            },
        },
        GraphEvent {
            metadata: EventMetadata::new(aggregate_id, correlation_id, 4, "test".to_string()),
            payload: GraphEventPayload::EdgeAdded {
                edge_id: "e1".to_string(),
                source_id: "n1".to_string(),
                target_id: "n2".to_string(),
                edge_type: "Edge".to_string(),
                data: obj(vec![]),
            },
        },
    ];
    
    let aggregate = GraphAggregate::replay(aggregate_id, events);
    assert_eq!(aggregate.version, 4);
    assert_eq!(aggregate.node_count, 2);
    assert_eq!(aggregate.edge_count, 1);
    assert_eq!(aggregate.name, Some("Test".to_string()));
}

#[test]
fn test_deterministic_event_ordering() {
    let aggregate_id = Uuid::new_v4();
    let mut store = MemoryEventStore::default();
    
    // Create events with specific versions
    let events: Vec<_> = (1..=5).map(|version| {
        GraphEvent {
            metadata: EventMetadata::new(
                aggregate_id,
                Uuid::new_v4(),
                version,
                "test".to_string()
            ),
            payload: GraphEventPayload::NodeAdded {
                node_id: format!("node-{}", version.to_string()),
                node_type: "Node".to_string(),
                data: obj(vec![("version", j(version))]),
            },
        }
    }).collect();
    
    store.append(events).unwrap();
    
    // Test version range queries
    let range = store.get_events_in_range(aggregate_id, 2, 4);
    assert_eq!(range.len(), 3);
    assert_eq!(range[0].metadata.version, 2);
    assert_eq!(range[1].metadata.version, 3);
    assert_eq!(range[2].metadata.version, 4);
    
    // Verify deterministic ordering
    let all_events = store.get_events(aggregate_id);
    for i in 0..all_events.len() - 1 {
        assert!(all_events[i].metadata.version < all_events[i + 1].metadata.version);
        assert!(all_events[i].metadata.occurred_at <= all_events[i + 1].metadata.occurred_at);
    }
}
