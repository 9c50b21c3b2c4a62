use cim_graph::graph_core::cim_graph::{EventData, GraphEvent, GraphProjection};
use cim_graph::graph_core::edge::GenericEdge;
use cim_graph::graph_core::graph::GraphType;
use cim_graph::graph_core::node::GenericNode;
use cim_graph::graph_core::projection_engine::{GenericGraphProjection, ProjectionCache, ProjectionEngine};
use cim_graph::ids::{Timestamp, Uuid};
use cim_graph::json::{JsonNumber, JsonValue};
use cim_graph::strmap::StrMap;

trait IntoJson {
    fn into_json(self) -> JsonValue;
}
impl IntoJson for JsonValue {
    fn into_json(self) -> JsonValue {
        self
    }
}
impl IntoJson for &JsonValue {
    fn into_json(self) -> JsonValue {
        self.clone()
    }
}
impl IntoJson for &str {
    fn into_json(self) -> JsonValue {
        JsonValue::from_str(self)
    }
}
impl IntoJson for String {
    fn into_json(self) -> JsonValue {
        JsonValue::from_str(&self)
    }
}
impl IntoJson for &String {
    fn into_json(self) -> JsonValue {
        JsonValue::from_str(self)
    }
}
impl IntoJson for bool {
    fn into_json(self) -> JsonValue {
        JsonValue::Bool(self)
    }
}
impl IntoJson for i32 {
    fn into_json(self) -> JsonValue {
        JsonValue::from_i64(self as i64)
    }
}
impl IntoJson for i64 {
    fn into_json(self) -> JsonValue {
        JsonValue::from_i64(self)
    }
}
impl IntoJson for u32 {
    fn into_json(self) -> JsonValue {
        JsonValue::from_u64(self as u64)
    }
}
impl IntoJson for u64 {
    fn into_json(self) -> JsonValue {
        JsonValue::from_u64(self)
    }
}
impl IntoJson for usize {
    fn into_json(self) -> JsonValue {
        JsonValue::from_u64(self as u64)
    }
}
impl IntoJson for f64 {
    fn into_json(self) -> JsonValue {
        JsonValue::Number(JsonNumber::Float(serde_json::Number::from_f64(self).unwrap()))
    }
}

fn as_real(v: &JsonValue) -> f64 {
    match v {
        JsonValue::Number(JsonNumber::Float(n)) => n.as_f64().unwrap(),
        JsonValue::Number(JsonNumber::PosInt(n)) => *n as f64,
        JsonValue::Number(JsonNumber::NegInt(n)) => *n as f64,
        _ => panic!("not a number"),
    }
}

fn j<T: IntoJson>(v: T) -> JsonValue {
    v.into_json()
}

fn obj(members: Vec<(&str, JsonValue)>) -> JsonValue {
    JsonValue::object(members.into_iter().map(|(k, v)| (k.to_string(), v)).collect())
}

fn arr(items: Vec<JsonValue>) -> JsonValue {
    JsonValue::array(items)
}

type TestProjection = GenericGraphProjection<GenericNode<String>, GenericEdge<String>>;

fn create_test_event(aggregate_id: Uuid, sequence: u64, data: EventData) -> GraphEvent {
    GraphEvent {
        event_id: Uuid::new_v4(),
        aggregate_id,
        sequence,
        subject: format!("cim.graph.evt.{}", aggregate_id.to_string()),
        timestamp: Timestamp::now(),
        correlation_id: Uuid::new_v4(),
        causation_id: None,
        data,
    }
}

#[test]
fn test_new_projection_is_empty() {
    let agg_id = Uuid::new_v4();
    let projection: TestProjection = GenericGraphProjection::new(agg_id, GraphType::Generic);

    assert_eq!(projection.aggregate_id, agg_id);
    assert_eq!(projection.version, 0);
    assert_eq!(projection.node_count(), 0);
    assert_eq!(projection.edge_count(), 0);
    assert!(matches!(projection.graph_type, GraphType::Generic));
}

#[test]
fn test_projection_with_nodes() {
    let agg_id = Uuid::new_v4();
    let mut projection: TestProjection = GenericGraphProjection::new(agg_id, GraphType::WorkflowGraph);

    let node = GenericNode::new("node1", "start".to_string());
    projection.nodes.insert("node1".to_string(), node);
    projection.adjacency.insert("node1".to_string(), vec![]);

    assert_eq!(projection.node_count(), 1);
    assert!(projection.get_node("node1").is_some());
    assert!(projection.get_node("nonexistent").is_none());
}

#[test]
fn test_projection_with_edges() {
    let agg_id = Uuid::new_v4();
    let mut projection: TestProjection = GenericGraphProjection::new(agg_id, GraphType::WorkflowGraph);

    // Add nodes
    let node_a = GenericNode::new("A", "start".to_string());
    let node_b = GenericNode::new("B", "Middle".to_string());
    projection.nodes.insert("A".to_string(), node_a);
    projection.nodes.insert("B".to_string(), node_b);

    // Add edge
    let edge = GenericEdge::with_id("e1", "A", "B", "transition".to_string());
    projection.edges.insert("e1".to_string(), edge);
    projection.adjacency.insert("A".to_string(), vec!["B".to_string()]);
    projection.adjacency.insert("B".to_string(), vec![]);

    assert_eq!(projection.edge_count(), 1);
    assert!(projection.get_edge("e1").is_some());
    assert!(projection.get_edge("nonexistent").is_none());
}

#[test]
fn test_edges_between() {
    let agg_id = Uuid::new_v4();
    let mut projection: TestProjection = GenericGraphProjection::new(agg_id, GraphType::WorkflowGraph);

    // Add nodes
    let node_a = GenericNode::new("A", "start".to_string());
    let node_b = GenericNode::new("B", "State".to_string());
    projection.nodes.insert("A".to_string(), node_a);
    projection.nodes.insert("B".to_string(), node_b);

    // Add edges from A to B
    let edge1 = GenericEdge::with_id("e1", "A", "B", "transition".to_string());
    let edge2 = GenericEdge::with_id("e2", "A", "B", "condition1".to_string());
    projection.edges.insert("e1".to_string(), edge1);
    projection.edges.insert("e2".to_string(), edge2);

    let edges_ab = projection.edges_between("A", "B");
    assert_eq!(edges_ab.len(), 2);

    let edges_ba = projection.edges_between("B", "A");
    assert_eq!(edges_ba.len(), 0);
}

#[test]
fn test_neighbors() {
    let agg_id = Uuid::new_v4();
    let mut projection: TestProjection = GenericGraphProjection::new(agg_id, GraphType::WorkflowGraph);

    // Create adjacency
    projection.adjacency.insert("A".to_string(), vec!["B".to_string(), "C".to_string()]);
    projection.adjacency.insert("B".to_string(), vec!["D".to_string()]);
    projection.adjacency.insert("C".to_string(), vec![]);
    projection.adjacency.insert("D".to_string(), vec![]);

    let neighbors_a = projection.neighbors("A");
    assert_eq!(neighbors_a.len(), 2);
    assert!(neighbors_a.contains(&"B"));
    assert!(neighbors_a.contains(&"C"));

    let neighbors_b = projection.neighbors("B");
    assert_eq!(neighbors_b.len(), 1);
    assert!(neighbors_b.contains(&"D"));

    let neighbors_c = projection.neighbors("C");
    assert_eq!(neighbors_c.len(), 0);

    let neighbors_nonexistent = projection.neighbors("X");
    assert_eq!(neighbors_nonexistent.len(), 0);
}

#[test]
fn test_nodes_iterator() {
    let agg_id = Uuid::new_v4();
    let mut projection: TestProjection = GenericGraphProjection::new(agg_id, GraphType::Generic);

    // Add multiple nodes
    for i in 0..5 {
        let id = format!("node{}", i.to_string());
        let node = GenericNode::new(&id, "start".to_string());
        projection.nodes.insert(id, node);
    }

    let node_vec: Vec<_> = projection.nodes();
    assert_eq!(node_vec.len(), 5);
}

#[test]
fn test_edges_iterator() {
    let agg_id = Uuid::new_v4();
    let mut projection: TestProjection = GenericGraphProjection::new(agg_id, GraphType::Generic);

    // Add edges
    for i in 0..3 {
        let id = format!("edge{}", i.to_string());
        let source = format!("node{}", i.to_string());
        let target = format!("node{}", (i + 1).to_string());
        let edge = GenericEdge::with_id(&id, &source, &target, "transition".to_string());
        projection.edges.insert(id, edge);
    }

    let edge_vec: Vec<_> = projection.edges();
    assert_eq!(edge_vec.len(), 3);
}

// ========== ProjectionEngine Tests ==========

#[test]
fn test_engine_creation() {
    let engine: ProjectionEngine<TestProjection> = ProjectionEngine::new();
    // Just verify it creates without panicking
    let _debug_str = format!("{:?}", engine);
}

#[test]
fn test_engine_project_with_init_event() {
    let engine: ProjectionEngine<TestProjection> = ProjectionEngine::new();
    let agg_id = Uuid::new_v4();

    let events = vec![
        create_test_event(
            agg_id,
            1,
            EventData::GraphInitialized {
                graph_type: "workflow".to_string(),
                metadata: StrMap::new(),
            },
        ),
    ];

    let projection = engine.project(events);

    assert_eq!(projection.aggregate_id, agg_id);
    assert_eq!(projection.version, 1);
    assert!(matches!(projection.graph_type, GraphType::WorkflowGraph));
}

#[test]
fn test_engine_project_with_node_events() {
    let engine: ProjectionEngine<TestProjection> = ProjectionEngine::new();
    let agg_id = Uuid::new_v4();

    let events = vec![
        create_test_event(
            agg_id,
            1,
            EventData::GraphInitialized {
                graph_type: "workflow".to_string(),
                metadata: StrMap::new(),
            },
        ),
        create_test_event(
            agg_id,
            2,
            EventData::NodeAdded {
                node_id: "start".to_string(),
                node_type: "Start".to_string(),
                data: obj(vec![]),
            },
        ),
        create_test_event(
            agg_id,
            3,
            EventData::NodeAdded {
                node_id: "end".to_string(),
                node_type: "End".to_string(),
                data: obj(vec![]),
            },
        ),
    ];

    let projection = engine.project(events);

    assert_eq!(projection.version, 3);
    // Nodes are tracked in adjacency
    assert!(projection.adjacency.contains_key("start"));
    assert!(projection.adjacency.contains_key("end"));
}

#[test]
fn test_engine_project_with_edge_events() {
    let engine: ProjectionEngine<TestProjection> = ProjectionEngine::new();
    let agg_id = Uuid::new_v4();

    let events = vec![
        create_test_event(
            agg_id,
            1,
            EventData::GraphInitialized {
                graph_type: "workflow".to_string(),
                metadata: StrMap::new(),
            },
        ),
        create_test_event(
            agg_id,
            2,
            EventData::NodeAdded {
                node_id: "A".to_string(),
                node_type: "State".to_string(),
                data: obj(vec![]),
            },
        ),
        create_test_event(
            agg_id,
            3,
            EventData::NodeAdded {
                node_id: "B".to_string(),
                node_type: "State".to_string(),
                data: obj(vec![]),
            },
        ),
        create_test_event(
            agg_id,
            4,
            EventData::EdgeAdded {
                edge_id: "e1".to_string(),
                source_id: "A".to_string(),
                target_id: "B".to_string(),
                edge_type: "Transition".to_string(),
                data: obj(vec![]),
            },
        ),
    ];

    let projection = engine.project(events);

    assert_eq!(projection.version, 4);
    // Check adjacency was updated
    let neighbors_a = projection.neighbors("A");
    assert!(neighbors_a.contains(&"B"));
}

#[test]
fn test_engine_apply_ignores_different_aggregate() {
    let engine: ProjectionEngine<TestProjection> = ProjectionEngine::new();
    let agg_id = Uuid::new_v4();
    let other_agg_id = Uuid::new_v4();

    let mut projection: TestProjection = GenericGraphProjection::new(agg_id, GraphType::Generic);
    projection.version = 5;

    // Create event for different aggregate
    let event = create_test_event(
        other_agg_id,
        10,
        EventData::NodeAdded {
            node_id: "foreign".to_string(),
            node_type: "Node".to_string(),
            data: obj(vec![]),
        },
    );

    engine.apply(&mut projection, &event);

    // Version should not change because event was for different aggregate
    assert_eq!(projection.version, 5);
    assert!(!projection.adjacency.contains_key("foreign"));
}

#[test]
fn test_engine_apply_node_removed() {
    let engine: ProjectionEngine<TestProjection> = ProjectionEngine::new();
    let agg_id = Uuid::new_v4();

    let mut projection: TestProjection = GenericGraphProjection::new(agg_id, GraphType::Generic);

    // Add node first
    let node = GenericNode::new("to_remove", "start".to_string());
    projection.nodes.insert("to_remove".to_string(), node);
    projection.adjacency.insert("to_remove".to_string(), vec!["other".to_string()]);
    projection.adjacency.insert("other".to_string(), vec!["to_remove".to_string()]);

    // Add edge connected to the node
    let edge = GenericEdge::with_id("e1", "to_remove", "other", "transition".to_string());
    projection.edges.insert("e1".to_string(), edge);

    let remove_event = create_test_event(
        agg_id,
        1,
        EventData::NodeRemoved {
            node_id: "to_remove".to_string(),
        },
    );

    engine.apply(&mut projection, &remove_event);

    // Node should be removed
    assert!(projection.get_node("to_remove").is_none());
    // Edge connected to node should be removed
    assert!(projection.get_edge("e1").is_none());
    // Adjacency should be updated
    assert!(!projection.adjacency.contains_key("to_remove"));
    // Other node's adjacency should not reference removed node
    let other_neighbors = projection.neighbors("other");
    assert!(!other_neighbors.contains(&"to_remove"));
}

#[test]
fn test_engine_apply_edge_removed() {
    let engine: ProjectionEngine<TestProjection> = ProjectionEngine::new();
    let agg_id = Uuid::new_v4();

    let mut projection: TestProjection = GenericGraphProjection::new(agg_id, GraphType::Generic);

    // Setup: Add edge
    let edge = GenericEdge::with_id("e1", "A", "B", "transition".to_string());
    projection.edges.insert("e1".to_string(), edge);
    projection.adjacency.insert("A".to_string(), vec!["B".to_string()]);
    projection.adjacency.insert("B".to_string(), vec![]);

    let remove_event = create_test_event(
        agg_id,
        1,
        EventData::EdgeRemoved {
            edge_id: "e1".to_string(),
        },
    );

    engine.apply(&mut projection, &remove_event);

    // Edge should be removed
    assert!(projection.get_edge("e1").is_none());
    // Adjacency should be updated
    let neighbors_a = projection.neighbors("A");
    assert!(!neighbors_a.contains(&"B"));
}

#[test]
fn test_engine_apply_node_updated() {
    let engine: ProjectionEngine<TestProjection> = ProjectionEngine::new();
    let agg_id = Uuid::new_v4();

    let mut projection: TestProjection = GenericGraphProjection::new(agg_id, GraphType::Generic);
    projection.adjacency.insert("node1".to_string(), vec![]);

    let update_event = create_test_event(
        agg_id,
        1,
        EventData::NodeUpdated {
            node_id: "node1".to_string(),
            data: obj(vec![("status", j("updated"))]),
        },
    );

    engine.apply(&mut projection, &update_event);

    // Check metadata was updated
    assert!(projection.metadata.properties.contains_key("node_node1_updated"));
    assert!(projection.metadata.properties.contains_key("node_node1_updated_at"));
}

#[test]
fn test_engine_apply_edge_updated() {
    let engine: ProjectionEngine<TestProjection> = ProjectionEngine::new();
    let agg_id = Uuid::new_v4();

    let mut projection: TestProjection = GenericGraphProjection::new(agg_id, GraphType::Generic);

    let update_event = create_test_event(
        agg_id,
        1,
        EventData::EdgeUpdated {
            edge_id: "edge1".to_string(),
            data: obj(vec![("weight", j(10i64))]),
        },
    );

    engine.apply(&mut projection, &update_event);

    // Check metadata was updated
    assert!(projection.metadata.properties.contains_key("edge_edge1_updated"));
    assert!(projection.metadata.properties.contains_key("edge_edge1_updated_at"));
}

#[test]
fn test_engine_apply_graph_types() {
    let engine: ProjectionEngine<TestProjection> = ProjectionEngine::new();
    let agg_id = Uuid::new_v4();

    let graph_types = vec![
        ("generic", GraphType::Generic),
        ("ipld", GraphType::IpldGraph),
        ("context", GraphType::ContextGraph),
        ("workflow", GraphType::WorkflowGraph),
        ("concept", GraphType::ConceptGraph),
        ("composed", GraphType::ComposedGraph),
        ("unknown", GraphType::Generic), // Unknown types default to Generic
    ];

    for (type_str, expected_type) in graph_types {
        let mut projection: TestProjection = GenericGraphProjection::new(agg_id, GraphType::Generic);

        let init_event = create_test_event(
            agg_id,
            1,
            EventData::GraphInitialized {
                graph_type: type_str.to_string(),
                metadata: StrMap::new(),
            },
        );

        engine.apply(&mut projection, &init_event);

        assert!(
            std::mem::discriminant(&projection.graph_type) == std::mem::discriminant(&expected_type),
            "Failed for type: {}", type_str
        );
    }
}

// ========== ProjectionCache Tests ==========

#[test]
fn test_cache_new() {
    let cache: ProjectionCache<TestProjection> = ProjectionCache::new(10);
    assert!(cache.get(&Uuid::new_v4()).is_none());
}

#[test]
fn test_cache_put_and_get() {
    let mut cache: ProjectionCache<TestProjection> = ProjectionCache::new(10);
    let agg_id = Uuid::new_v4();

    let projection: TestProjection = GenericGraphProjection::new(agg_id, GraphType::Generic);
    cache.put(projection);

    assert!(cache.get(&agg_id).is_some());
    assert_eq!(cache.get(&agg_id).unwrap().aggregate_id, agg_id);
}

#[test]
fn test_cache_invalidate() {
    let mut cache: ProjectionCache<TestProjection> = ProjectionCache::new(10);
    let agg_id = Uuid::new_v4();

    let projection: TestProjection = GenericGraphProjection::new(agg_id, GraphType::Generic);
    cache.put(projection);

    assert!(cache.get(&agg_id).is_some());

    cache.invalidate(&agg_id);

    assert!(cache.get(&agg_id).is_none());
}

#[test]
fn test_cache_clear() {
    let mut cache: ProjectionCache<TestProjection> = ProjectionCache::new(10);

    // Add multiple projections
    for _ in 0..5 {
        let agg_id = Uuid::new_v4();
        let projection: TestProjection = GenericGraphProjection::new(agg_id, GraphType::Generic);
        cache.put(projection);
    }

    cache.clear();

    // Verify all are cleared by trying to get a new one
    // (we can't easily verify since we don't track the IDs)
}

#[test]
fn test_cache_eviction_at_capacity() {
    let mut cache: ProjectionCache<TestProjection> = ProjectionCache::new(3);

    let mut ids = Vec::new();

    // Add 4 projections (one over capacity)
    for _ in 0..4 {
        let agg_id = Uuid::new_v4();
        ids.push(agg_id);
        let projection: TestProjection = GenericGraphProjection::new(agg_id, GraphType::Generic);
        cache.put(projection);
    }

    // At least one should be evicted
    let mut found_count = 0;
    for id in &ids {
        if cache.get(id).is_some() {
            found_count += 1;
        }
    }

    // Should have at most 3 items (max_size)
    assert!(found_count <= 3, "Cache should evict to stay at max_size");
}

#[test]
fn test_cache_update_existing() {
    let mut cache: ProjectionCache<TestProjection> = ProjectionCache::new(10);
    let agg_id = Uuid::new_v4();

    // Add projection with version 1
    let mut projection: TestProjection = GenericGraphProjection::new(agg_id, GraphType::Generic);
    projection.version = 1;
    cache.put(projection);

    assert_eq!(cache.get(&agg_id).unwrap().version, 1);

    // Update with version 2
    let mut projection2: TestProjection = GenericGraphProjection::new(agg_id, GraphType::Generic);
    projection2.version = 2;
    cache.put(projection2);

    // Should have the updated version
    assert_eq!(cache.get(&agg_id).unwrap().version, 2);
}
