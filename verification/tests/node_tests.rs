use cim_graph::graph_core::node::{GenericNode, Node};
use cim_graph::graph_core::edge::{Edge, GenericEdge};
use cim_graph::error::GraphError;

#[test]
fn test_generic_node_creation() {
    let node = GenericNode::new("test_id", "test_data");
    assert_eq!(node.id(), "test_id");
    assert_eq!(node.data(), &"test_data");
}

#[test]
fn test_generic_node_with_string_id() {
    let node = GenericNode::new(String::from("string_id").as_str(), 42);
    assert_eq!(node.id(), "string_id");
    assert_eq!(node.data(), &42);
}

#[derive(Debug, Clone, PartialEq)]
struct ComplexData {
    name: String,
    value: f64,
    tags: Vec<String>,
}

#[test]
fn test_generic_node_with_complex_data() {
    let data = ComplexData {
        name: "test".to_string(),
        value: 3.14,
        tags: vec!["a".to_string(), "b".to_string()],
    };

    let node = GenericNode::new("complex", data.clone());
    assert_eq!(node.id(), "complex");
    assert_eq!(node.data(), &data);
}

#[test]
fn test_generic_node_with_empty_id() {
    let node = GenericNode::new("", "data");
    assert_eq!(node.id(), "");
    assert_eq!(node.data(), &"data");
}

#[test]
fn test_generic_node_with_unicode_id() {
    let node = GenericNode::new("nodo_espanol_123", "value");
    assert_eq!(node.id(), "nodo_espanol_123");
}

#[test]
fn test_node_trait_implementation() {
    let node = GenericNode::new("node1", 42);
    assert_eq!(node.id(), "node1");
}

#[test]
fn test_generic_node_data_immutable_access() {
    let node = GenericNode::new("id", vec![1, 2, 3]);
    let data = node.data();
    assert_eq!(data, &vec![1, 2, 3]);
}

#[test]
fn test_generic_node_data_mutable_access() {
    let mut node = GenericNode::new("id", vec![1, 2, 3]);
    {
        let data = node.data_mut();
        data.push(4);
    }
    assert_eq!(node.data(), &vec![1, 2, 3, 4]);
}

#[derive(Debug, Clone, PartialEq)]
struct MutableData {
    counter: i32,
}

#[test]
fn test_generic_node_data_mut_modify_struct() {
    let mut node = GenericNode::new("id", MutableData { counter: 0 });
    node.data_mut().counter += 10;
    assert_eq!(node.data().counter, 10);
}

#[test]
fn test_generic_node_clone() {
    let node1 = GenericNode::new("original", 100);
    let node2 = node1.clone();

    assert_eq!(node1.id(), node2.id());
    assert_eq!(node1.data(), node2.data());
}

#[test]
fn test_generic_node_debug() {
    let node = GenericNode::new("debug_test", "value");
    let debug_str = format!("{:?}", node);
    assert!(debug_str.contains("debug_test"));
    assert!(debug_str.contains("value"));
}

fn assert_node_id<N: Node>(node: &N, expected: &str) {
    assert_eq!(node.id(), expected);
}

#[test]
fn test_node_trait_with_various_types() {
    let string_node = GenericNode::new("str", "data".to_string());
    let int_node = GenericNode::new("int", 123);
    let float_node = GenericNode::new("float", 1.5f64);
    let bool_node = GenericNode::new("bool", true);

    assert_node_id(&string_node, "str");
    assert_node_id(&int_node, "int");
    assert_node_id(&float_node, "float");
    assert_node_id(&bool_node, "bool");
}

#[test]
fn test_node_id_returns_owned_string() {
    let node = GenericNode::new("test", 0);
    let id1 = node.id();
    let id2 = node.id();

    assert_eq!(id1, id2);
    assert_eq!(id1, "test");
    assert_eq!(id2, "test");
}

#[test]
fn test_generic_node() {
    let node = GenericNode::new("id1", "test data");
    assert_eq!(node.id(), "id1");
    assert_eq!(node.data(), &"test data");

    let node2 = GenericNode::new("id2", 42);
    assert_eq!(node2.id(), "id2");
    assert_eq!(*node2.data(), 42);
}

#[test]
fn test_generic_edge() {
    let edge = GenericEdge::new("src", "tgt", 1.5);
    assert_eq!(edge.source(), "src");
    assert_eq!(edge.target(), "tgt");
    assert_eq!(*edge.data(), 1.5);

    let edge2 = GenericEdge::new("src2", "tgt2", 2.0);
    assert_eq!(edge2.source(), "src2");
    assert_eq!(edge2.target(), "tgt2");
}

#[test]
fn tests_test_from_serde_json_error() {
    let json_err = serde_json::from_str::<String>("invalid json").unwrap_err();
    let graph_err: GraphError = GraphError::from_json_error(json_err);
    assert!(matches!(graph_err, GraphError::SerializationError(_)));
}
