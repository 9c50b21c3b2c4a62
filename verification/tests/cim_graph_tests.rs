use cim_graph::graph_core::cim_graph::{EventData, GraphCommand, GraphEvent};
use cim_graph::ids::{Timestamp, Uuid};
use cim_graph::json::{JsonNumber, JsonValue};
use cim_graph::strmap::StrMap;

trait IntoJson {
    fn into_json(self) -> JsonValue;
}
impl IntoJson for JsonValue {
    fn into_json(self) -> JsonValue {
        self
    }
}
impl IntoJson for &JsonValue {
    fn into_json(self) -> JsonValue {
        self.clone()
    }
}
impl IntoJson for &str {
    fn into_json(self) -> JsonValue {
        JsonValue::from_str(self)
    }
}
impl IntoJson for String {
    fn into_json(self) -> JsonValue {
        JsonValue::from_str(&self)
    }
}
impl IntoJson for &String {
    fn into_json(self) -> JsonValue {
        JsonValue::from_str(self)
    }
}
impl IntoJson for bool {
    fn into_json(self) -> JsonValue {
        JsonValue::Bool(self)
    }
}
impl IntoJson for i32 {
    fn into_json(self) -> JsonValue {
        JsonValue::from_i64(self as i64)
    }
}
impl IntoJson for i64 {
    fn into_json(self) -> JsonValue {
        JsonValue::from_i64(self)
    }
}
impl IntoJson for u32 {
    fn into_json(self) -> JsonValue {
        JsonValue::from_u64(self as u64)
    }
}
impl IntoJson for u64 {
    fn into_json(self) -> JsonValue {
        JsonValue::from_u64(self)
    }
}
impl IntoJson for usize {
    fn into_json(self) -> JsonValue {
        JsonValue::from_u64(self as u64)
    }
}
impl IntoJson for f64 {
    fn into_json(self) -> JsonValue {
        JsonValue::Number(JsonNumber::Float(serde_json::Number::from_f64(self).unwrap()))
    }
}

fn j<T: IntoJson>(v: T) -> JsonValue {
    v.into_json()
}

fn obj(members: Vec<(&str, JsonValue)>) -> JsonValue {
    JsonValue::object(members.into_iter().map(|(k, v)| (k.to_string(), v)).collect())
}

fn arr(items: Vec<JsonValue>) -> JsonValue {
    JsonValue::array(items)
}


// ========== GraphEvent Tests ==========

fn create_test_event() -> GraphEvent {
    GraphEvent {
        event_id: Uuid::new_v4(),
        aggregate_id: Uuid::new_v4(),
        sequence: 1,
        subject: "test.graph.event".to_string(),
        timestamp: Timestamp::now(),
        correlation_id: Uuid::new_v4(),
        causation_id: None,
        data: EventData::GraphInitialized {
            graph_type: "test".to_string(),
            metadata: StrMap::new(),
        },
    }
}

#[test]
fn cim_graph_test_graph_event_creation() {
    let event = create_test_event();
    assert!(!event.event_id.is_nil());
    assert!(!event.aggregate_id.is_nil());
    assert_eq!(event.sequence, 1);
    assert_eq!(event.subject, "test.graph.event");
}

#[test]
fn cim_graph_test_graph_event_with_causation() {
    let cause_id = Uuid::new_v4();
    let event = GraphEvent {
        event_id: Uuid::new_v4(),
        aggregate_id: Uuid::new_v4(),
        sequence: 2,
        subject: "test.caused.event".to_string(),
        timestamp: Timestamp::now(),
        correlation_id: Uuid::new_v4(),
        causation_id: Some(cause_id),
        data: EventData::NodeAdded {
            node_id: "n1".to_string(),
            node_type: "test".to_string(),
            data: obj(vec![]),
        },
    };

    assert_eq!(event.causation_id, Some(cause_id));
}

#[test]
fn cim_graph_test_graph_event_clone() {
    let event = create_test_event();
    let cloned = event.clone();

    assert_eq!(event.event_id, cloned.event_id);
    assert_eq!(event.aggregate_id, cloned.aggregate_id);
    assert_eq!(event.sequence, cloned.sequence);
    assert_eq!(event.subject, cloned.subject);
}

#[test]
fn cim_graph_test_graph_event_debug() {
    let event = create_test_event();
    let debug_str = format!("{:?}", event);
    assert!(debug_str.contains("GraphEvent"));
}

// ========== EventData Tests ==========

#[test]
fn test_event_data_graph_initialized() {
    let mut metadata = StrMap::new();
    metadata.insert("key".to_string(), j("value"));

    let data = EventData::GraphInitialized {
        graph_type: "workflow".to_string(),
        metadata: metadata.clone(),
    };

    match data {
        EventData::GraphInitialized { graph_type, metadata: m } => {
            assert_eq!(graph_type, "workflow");
            assert_eq!(m.get("key").unwrap(), &j("value"));
        }
        _ => panic!("Wrong variant"),
    }
}

#[test]
fn cim_graph_test_event_data_node_added() {
    let data = EventData::NodeAdded {
        node_id: "node_1".to_string(),
        node_type: "entity".to_string(),
        data: obj(vec![("name", j("Test Node"))]),
    };

    match data {
        EventData::NodeAdded { node_id, node_type, data: node_data } => {
            assert_eq!(node_id, "node_1");
            assert_eq!(node_type, "entity");
            assert_eq!(node_data.get("name").unwrap(), &j("Test Node"));
        }
        _ => panic!("Wrong variant"),
    }
}

#[test]
fn cim_graph_test_event_data_edge_added() {
    let data = EventData::EdgeAdded {
        edge_id: "edge_1".to_string(),
        source_id: "node_a".to_string(),
        target_id: "node_b".to_string(),
        edge_type: "contains".to_string(),
        data: obj(vec![]),
    };

    match data {
        EventData::EdgeAdded { edge_id, source_id, target_id, edge_type, .. } => {
            assert_eq!(edge_id, "edge_1");
            assert_eq!(source_id, "node_a");
            assert_eq!(target_id, "node_b");
            assert_eq!(edge_type, "contains");
        }
        _ => panic!("Wrong variant"),
    }
}

#[test]
fn cim_graph_test_event_data_node_removed() {
    let data = EventData::NodeRemoved {
        node_id: "deleted_node".to_string(),
    };

    match data {
        EventData::NodeRemoved { node_id } => {
            assert_eq!(node_id, "deleted_node");
        }
        _ => panic!("Wrong variant"),
    }
}

#[test]
fn cim_graph_test_event_data_edge_removed() {
    let data = EventData::EdgeRemoved {
        edge_id: "deleted_edge".to_string(),
    };

    match data {
        EventData::EdgeRemoved { edge_id } => {
            assert_eq!(edge_id, "deleted_edge");
        }
        _ => panic!("Wrong variant"),
    }
}

#[test]
fn test_event_data_node_updated() {
    let data = EventData::NodeUpdated {
        node_id: "updated_node".to_string(),
        data: obj(vec![("status", j("modified"))]),
    };

    match data {
        EventData::NodeUpdated { node_id, data: node_data } => {
            assert_eq!(node_id, "updated_node");
            assert_eq!(node_data.get("status").unwrap(), &j("modified"));
        }
        _ => panic!("Wrong variant"),
    }
}

#[test]
fn test_event_data_edge_updated() {
    let data = EventData::EdgeUpdated {
        edge_id: "updated_edge".to_string(),
        data: obj(vec![("weight", j(5i64))]),
    };

    match data {
        EventData::EdgeUpdated { edge_id, data: edge_data } => {
            assert_eq!(edge_id, "updated_edge");
            assert_eq!(edge_data.get("weight").unwrap(), &j(5));
        }
        _ => panic!("Wrong variant"),
    }
}

#[test]
fn test_event_data_all_variants_clone() {
    let variants: Vec<EventData> = vec![
        EventData::GraphInitialized {
            graph_type: "test".to_string(),
            metadata: StrMap::new(),
        },
        EventData::NodeAdded {
            node_id: "n".to_string(),
            node_type: "t".to_string(),
            data: obj(vec![]),
        },
        EventData::EdgeAdded {
            edge_id: "e".to_string(),
            source_id: "s".to_string(),
            target_id: "t".to_string(),
            edge_type: "et".to_string(),
            data: obj(vec![]),
        },
        EventData::NodeRemoved { node_id: "n".to_string() },
        EventData::EdgeRemoved { edge_id: "e".to_string() },
        EventData::NodeUpdated {
            node_id: "n".to_string(),
            data: obj(vec![]),
        },
        EventData::EdgeUpdated {
            edge_id: "e".to_string(),
            data: obj(vec![]),
        },
    ];

    for variant in variants {
        let cloned = variant.clone();
        let _ = format!("{:?}", cloned); // Verify Debug works
    }
}

#[test]
fn test_graph_command_initialize_graph() {
    let agg_id = Uuid::new_v4();
    let mut metadata = StrMap::new();
    metadata.insert("version".to_string(), j("1.0"));

    let command = GraphCommand::InitializeGraph {
        aggregate_id: agg_id,
        graph_type: "workflow".to_string(),
        metadata: metadata.clone(),
    };

    match command {
        GraphCommand::InitializeGraph { aggregate_id, graph_type, metadata: m } => {
            assert_eq!(aggregate_id, agg_id);
            assert_eq!(graph_type, "workflow");
            assert_eq!(m.get("version").unwrap(), &j("1.0"));
        }
        _ => panic!("Wrong variant"),
    }
}

#[test]
fn cim_graph_test_graph_command_add_node() {
    let agg_id = Uuid::new_v4();
    let command = GraphCommand::AddNode {
        aggregate_id: agg_id,
        node_id: "new_node".to_string(),
        node_type: "entity".to_string(),
        data: obj(vec![("label", j("New Node"))]),
    };

    match command {
        GraphCommand::AddNode { aggregate_id, node_id, node_type, data } => {
            assert_eq!(aggregate_id, agg_id);
            assert_eq!(node_id, "new_node");
            assert_eq!(node_type, "entity");
            assert_eq!(data.get("label").unwrap(), &j("New Node"));
        }
        _ => panic!("Wrong variant"),
    }
}

#[test]
fn cim_graph_test_graph_command_add_edge() {
    let agg_id = Uuid::new_v4();
    let command = GraphCommand::AddEdge {
        aggregate_id: agg_id,
        edge_id: "new_edge".to_string(),
        source_id: "src".to_string(),
        target_id: "tgt".to_string(),
        edge_type: "depends_on".to_string(),
        data: obj(vec![("weight", j(1i64))]),
    };

    match command {
        GraphCommand::AddEdge {
            aggregate_id,
            edge_id,
            source_id,
            target_id,
            edge_type,
            data,
        } => {
            assert_eq!(aggregate_id, agg_id);
            assert_eq!(edge_id, "new_edge");
            assert_eq!(source_id, "src");
            assert_eq!(target_id, "tgt");
            assert_eq!(edge_type, "depends_on");
            assert_eq!(data.get("weight").unwrap(), &j(1));
        }
        _ => panic!("Wrong variant"),
    }
}

#[test]
fn cim_graph_test_graph_command_remove_node() {
    let agg_id = Uuid::new_v4();
    let command = GraphCommand::RemoveNode {
        aggregate_id: agg_id,
        node_id: "node_to_remove".to_string(),
    };

    match command {
        GraphCommand::RemoveNode { aggregate_id, node_id } => {
            assert_eq!(aggregate_id, agg_id);
            assert_eq!(node_id, "node_to_remove");
        }
        _ => panic!("Wrong variant"),
    }
}

#[test]
fn cim_graph_test_graph_command_remove_edge() {
    let agg_id = Uuid::new_v4();
    let command = GraphCommand::RemoveEdge {
        aggregate_id: agg_id,
        edge_id: "edge_to_remove".to_string(),
    };

    match command {
        GraphCommand::RemoveEdge { aggregate_id, edge_id } => {
            assert_eq!(aggregate_id, agg_id);
            assert_eq!(edge_id, "edge_to_remove");
        }
        _ => panic!("Wrong variant"),
    }
}

#[test]
fn test_graph_command_clone() {
    let command = GraphCommand::AddNode {
        aggregate_id: Uuid::new_v4(),
        node_id: "cloned_node".to_string(),
        node_type: "test".to_string(),
        data: obj(vec![]),
    };

    let cloned = command.clone();

    match (command, cloned) {
        (
            GraphCommand::AddNode { node_id: n1, .. },
            GraphCommand::AddNode { node_id: n2, .. },
        ) => {
            assert_eq!(n1, n2);
        }
        _ => panic!("Clone failed"),
    }
}

#[test]
fn test_graph_command_all_variants_debug() {
    let commands: Vec<GraphCommand> = vec![
        GraphCommand::InitializeGraph {
            aggregate_id: Uuid::new_v4(),
            graph_type: "test".to_string(),
            metadata: StrMap::new(),
        },
        GraphCommand::AddNode {
            aggregate_id: Uuid::new_v4(),
            node_id: "n".to_string(),
            node_type: "t".to_string(),
            data: obj(vec![]),
        },
        GraphCommand::AddEdge {
            aggregate_id: Uuid::new_v4(),
            edge_id: "e".to_string(),
            source_id: "s".to_string(),
            target_id: "t".to_string(),
            edge_type: "et".to_string(),
            data: obj(vec![]),
        },
        GraphCommand::RemoveNode {
            aggregate_id: Uuid::new_v4(),
            node_id: "n".to_string(),
        },
        GraphCommand::RemoveEdge {
            aggregate_id: Uuid::new_v4(),
            edge_id: "e".to_string(),
        },
    ];

    for command in commands {
        let debug_str = format!("{:?}", command);
        assert!(!debug_str.is_empty());
    }
}

// ========== Integration Tests ==========

#[test]
fn test_event_correlation_chain() {
    let correlation_id = Uuid::new_v4();
    let event1 = GraphEvent {
        event_id: Uuid::new_v4(),
        aggregate_id: Uuid::new_v4(),
        sequence: 1,
        subject: "test.event.1".to_string(),
        timestamp: Timestamp::now(),
        correlation_id,
        causation_id: None,
        data: EventData::GraphInitialized {
            graph_type: "test".to_string(),
            metadata: StrMap::new(),
        },
    };

    let event2 = GraphEvent {
        event_id: Uuid::new_v4(),
        aggregate_id: event1.aggregate_id,
        sequence: 2,
        subject: "test.event.2".to_string(),
        timestamp: Timestamp::now(),
        correlation_id, // Same correlation ID
        causation_id: Some(event1.event_id), // Caused by event1
        data: EventData::NodeAdded {
            node_id: "n1".to_string(),
            node_type: "test".to_string(),
            data: obj(vec![]),
        },
    };

    // Same correlation chain
    assert_eq!(event1.correlation_id, event2.correlation_id);
    // Causation link
    assert_eq!(event2.causation_id, Some(event1.event_id));
    // Same aggregate
    assert_eq!(event1.aggregate_id, event2.aggregate_id);
    // Increasing sequence
    assert!(event2.sequence > event1.sequence);
}

#[test]
fn test_event_sequence_ordering() {
    let agg_id = Uuid::new_v4();
    let correlation_id = Uuid::new_v4();

    let events: Vec<GraphEvent> = (1..=5)
        .map(|seq| GraphEvent {
            event_id: Uuid::new_v4(),
            aggregate_id: agg_id,
            sequence: seq,
            subject: format!("test.event.{}", seq.to_string()),
            timestamp: Timestamp::now(),
            correlation_id,
            causation_id: None,
            data: EventData::NodeAdded {
                node_id: format!("node_{}", seq.to_string()),
                node_type: "test".to_string(),
                data: obj(vec![]),
            },
        })
        .collect();

    // Verify sequence ordering
    for i in 1..events.len() {
        assert!(events[i].sequence > events[i - 1].sequence);
    }
}

#[test]
fn test_command_to_event_flow() {
    // Create a command
    let agg_id = Uuid::new_v4();
    let command = GraphCommand::AddNode {
        aggregate_id: agg_id,
        node_id: "cmd_node".to_string(),
        node_type: "entity".to_string(),
        data: obj(vec![("from", j("command"))]),
    };

    // Simulate producing an event from the command
    let event = match &command {
        GraphCommand::AddNode { aggregate_id, node_id, node_type, data } => {
            GraphEvent {
                event_id: Uuid::new_v4(),
                aggregate_id: *aggregate_id,
                sequence: 1,
                subject: "graph.node.added".to_string(),
                timestamp: Timestamp::now(),
                correlation_id: Uuid::new_v4(),
                causation_id: None,
                data: EventData::NodeAdded {
                    node_id: node_id.clone(),
                    node_type: node_type.clone(),
                    data: data.clone(),
                },
            }
        }
        _ => panic!("Unexpected command type"),
    };

    // Verify the event was produced from the command
    assert_eq!(event.aggregate_id, agg_id);
    match event.data {
        EventData::NodeAdded { node_id, node_type, data } => {
            assert_eq!(node_id, "cmd_node");
            assert_eq!(node_type, "entity");
            assert_eq!(data.get("from").unwrap(), &j("command"));
        }
        _ => panic!("Wrong event data type"),
    }
}

#[test]
fn test_graph_event_timestamp_precision() {
    let before = Timestamp::now();
    let event = create_test_event();
    let after = Timestamp::now();

    assert!(event.timestamp >= before);
    assert!(event.timestamp <= after);
}

#[test]
fn test_empty_metadata() {
    let metadata: StrMap<JsonValue> = StrMap::new();
    let data = EventData::GraphInitialized {
        graph_type: "empty_metadata".to_string(),
        metadata,
    };

    match data {
        EventData::GraphInitialized { metadata, .. } => {
            assert!(metadata.is_empty());
        }
        _ => panic!("Wrong variant"),
    }
}

#[test]
fn test_complex_metadata() {
    let mut metadata = StrMap::new();
    metadata.insert("string".to_string(), j("value"));
    metadata.insert("number".to_string(), j(42i64));
    metadata.insert("boolean".to_string(), j(true));
    metadata.insert("array".to_string(), arr(vec![j(1i64), j(2i64), j(3i64)]));
    metadata.insert(
        "object".to_string(),
        obj(vec![("nested", j("value"))]),
    );

    let data = EventData::GraphInitialized {
        graph_type: "complex".to_string(),
        metadata,
    };

    match data {
        EventData::GraphInitialized { metadata, .. } => {
            assert_eq!(metadata.len(), 5);
            assert_eq!(metadata.get("string").unwrap(), &j("value"));
            assert_eq!(metadata.get("number").unwrap(), &j(42));
            assert_eq!(metadata.get("boolean").unwrap(), &j(true));
        }
        _ => panic!("Wrong variant"),
    }
}
