use cim_graph::events::subjects::{
    build_all_events_subscription, build_event_subject, build_graph_subscription,
    build_type_subscription, decode_event_segments, parse_event_subject, EventType, GraphType,
    GRAPH_ROOT,
};
use cim_graph::ids::Uuid;

#[test]
fn test_event_subject_building() {
    let aggregate_id = Uuid::new_v4();
    let subject = build_event_subject(GraphType::Workflow, aggregate_id, EventType::Created);

    let expected = format!("cim.graph.workflow.{}.created", aggregate_id.to_string());
    assert_eq!(subject.to_string(), expected);
}

#[test]
fn test_subscription_subjects() {
    let aggregate_id = Uuid::new_v4();

    let graph_sub = build_graph_subscription(GraphType::Ipld, aggregate_id);
    assert_eq!(
        graph_sub.to_string(),
        format!("cim.graph.ipld.{}.*", aggregate_id.to_string())
    );

    let type_sub = build_type_subscription(GraphType::Context);
    assert_eq!(type_sub.to_string(), "cim.graph.context.>");

    let all_sub = build_all_events_subscription();
    assert_eq!(all_sub.to_string(), "cim.graph.>");
}

#[test]
fn test_graph_type_as_str() {
    assert_eq!(GraphType::Ipld.as_str(), "ipld");
    assert_eq!(GraphType::Context.as_str(), "context");
    assert_eq!(GraphType::Workflow.as_str(), "workflow");
    assert_eq!(GraphType::Concept.as_str(), "concept");
    assert_eq!(GraphType::Composed.as_str(), "composed");
}

#[test]
fn test_graph_type_equality() {
    assert_eq!(GraphType::Ipld, GraphType::Ipld);
    assert_eq!(GraphType::Context, GraphType::Context);
    assert_ne!(GraphType::Ipld, GraphType::Context);
    assert_ne!(GraphType::Workflow, GraphType::Concept);
}

#[test]
fn subjects_test_graph_type_clone() {
    let original = GraphType::Workflow;
    let cloned = original.clone();
    assert_eq!(original, cloned);
}

#[test]
fn subjects_test_graph_type_copy() {
    let original = GraphType::Concept;
    let copied: GraphType = original;
    assert_eq!(original, copied);
}

#[test]
fn subjects_test_graph_type_debug() {
    let debug_str = format!("{:?}", GraphType::Composed);
    assert_eq!(debug_str, "Composed");
}

#[test]
fn test_event_type_as_str() {
    assert_eq!(EventType::Created.as_str(), "created");
    assert_eq!(EventType::Updated.as_str(), "updated");
    assert_eq!(EventType::Deleted.as_str(), "deleted");
    assert_eq!(EventType::NodeAdded.as_str(), "node_added");
    assert_eq!(EventType::NodeRemoved.as_str(), "node_removed");
    assert_eq!(EventType::EdgeAdded.as_str(), "edge_added");
    assert_eq!(EventType::EdgeRemoved.as_str(), "edge_removed");
    assert_eq!(EventType::StateChanged.as_str(), "state_changed");
}

#[test]
fn test_event_type_equality() {
    assert_eq!(EventType::Created, EventType::Created);
    assert_eq!(EventType::NodeAdded, EventType::NodeAdded);
    assert_ne!(EventType::Created, EventType::Deleted);
    assert_ne!(EventType::EdgeAdded, EventType::EdgeRemoved);
}

#[test]
fn test_event_type_clone() {
    let original = EventType::StateChanged;
    let cloned = original.clone();
    assert_eq!(original, cloned);
}

#[test]
fn test_event_type_copy() {
    let original = EventType::Updated;
    let copied: EventType = original;
    assert_eq!(original, copied);
}

#[test]
fn test_event_type_debug() {
    let debug_str = format!("{:?}", EventType::NodeAdded);
    assert_eq!(debug_str, "NodeAdded");
}

#[test]
fn test_build_event_subject_all_graph_types() {
    let aggregate_id = Uuid::new_v4();
    let subjects = vec![
        (GraphType::Ipld, "ipld"),
        (GraphType::Context, "context"),
        (GraphType::Workflow, "workflow"),
        (GraphType::Concept, "concept"),
        (GraphType::Composed, "composed"),
    ];
    for (graph_type, type_str) in subjects {
        let subject = build_event_subject(graph_type, aggregate_id, EventType::Created);
        assert!(subject.contains(type_str), "Subject should contain '{}'", type_str);
        assert!(subject.contains(&aggregate_id.to_string()));
        assert!(subject.contains("created"));
    }
}

#[test]
fn test_build_event_subject_all_event_types() {
    let aggregate_id = Uuid::new_v4();
    let event_types = vec![
        (EventType::Created, "created"),
        (EventType::Updated, "updated"),
        (EventType::Deleted, "deleted"),
        (EventType::NodeAdded, "node_added"),
        (EventType::NodeRemoved, "node_removed"),
        (EventType::EdgeAdded, "edge_added"),
        (EventType::EdgeRemoved, "edge_removed"),
        (EventType::StateChanged, "state_changed"),
    ];
    for (event_type, type_str) in event_types {
        let subject = build_event_subject(GraphType::Workflow, aggregate_id, event_type);
        assert!(subject.ends_with(type_str), "Subject should end with '{}'", type_str);
    }
}

#[test]
fn test_build_event_subject_format() {
    let aggregate_id = Uuid::new_v4();
    let subject = build_event_subject(GraphType::Ipld, aggregate_id, EventType::NodeAdded);
    let parts: Vec<&str> = subject.split('.').collect();
    assert_eq!(parts.len(), 5);
    assert_eq!(parts[0], "cim");
    assert_eq!(parts[1], "graph");
    assert_eq!(parts[2], "ipld");
    assert_eq!(parts[3], aggregate_id.to_string());
    assert_eq!(parts[4], "node_added");
}

#[test]
fn test_build_graph_subscription_all_types() {
    let aggregate_id = Uuid::new_v4();
    for graph_type in [
        GraphType::Ipld,
        GraphType::Context,
        GraphType::Workflow,
        GraphType::Concept,
        GraphType::Composed,
    ] {
        let sub = build_graph_subscription(graph_type, aggregate_id);
        assert!(sub.contains(&aggregate_id.to_string()));
        assert!(sub.ends_with(".*"));
    }
}

#[test]
fn test_build_graph_subscription_format() {
    let aggregate_id = Uuid::new_v4();
    let sub = build_graph_subscription(GraphType::Context, aggregate_id);
    let expected = format!("cim.graph.context.{}.*", aggregate_id.to_string());
    assert_eq!(sub, expected);
}

#[test]
fn test_build_type_subscription_all_types() {
    let subscriptions = vec![
        (GraphType::Ipld, "cim.graph.ipld.>"),
        (GraphType::Context, "cim.graph.context.>"),
        (GraphType::Workflow, "cim.graph.workflow.>"),
        (GraphType::Concept, "cim.graph.concept.>"),
        (GraphType::Composed, "cim.graph.composed.>"),
    ];
    for (graph_type, expected) in subscriptions {
        let sub = build_type_subscription(graph_type);
        assert_eq!(sub, expected);
    }
}

#[test]
fn test_build_all_events_subscription() {
    let sub = build_all_events_subscription();
    assert_eq!(sub, "cim.graph.>");
}

#[test]
fn test_parse_event_subject_roundtrip() {
    let aggregate_id = Uuid::new_v4();
    let subject = build_event_subject(GraphType::Workflow, aggregate_id, EventType::StateChanged);
    let (parsed_type, parsed_id, parsed_event) = parse_event_subject(&subject).unwrap();
    assert_eq!(parsed_type, GraphType::Workflow);
    assert_eq!(parsed_id, aggregate_id);
    assert_eq!(parsed_event, EventType::StateChanged);
}

#[test]
fn test_parse_event_subject_all_graph_types() {
    let aggregate_id = Uuid::new_v4();
    for graph_type in [
        GraphType::Ipld,
        GraphType::Context,
        GraphType::Workflow,
        GraphType::Concept,
        GraphType::Composed,
    ] {
        let subject = build_event_subject(graph_type, aggregate_id, EventType::Created);
        let (parsed_type, _, _) = parse_event_subject(&subject).unwrap();
        assert_eq!(parsed_type, graph_type);
    }
}

#[test]
fn test_parse_event_subject_all_event_types() {
    let aggregate_id = Uuid::new_v4();
    let event_types = [
        EventType::Created,
        EventType::Updated,
        EventType::Deleted,
        EventType::NodeAdded,
        EventType::NodeRemoved,
        EventType::EdgeAdded,
        EventType::EdgeRemoved,
        EventType::StateChanged,
    ];
    for event_type in event_types {
        let subject = build_event_subject(GraphType::Ipld, aggregate_id, event_type);
        let (_, _, parsed_event) = parse_event_subject(&subject).unwrap();
        assert_eq!(parsed_event, event_type);
    }
}

#[test]
fn test_parse_event_subject_invalid_format_too_few_segments() {
    let result = parse_event_subject("cim.graph.workflow");
    assert!(result.is_err());
    assert!(result.unwrap_err().contains("Invalid subject format"));
}

#[test]
fn test_parse_event_subject_invalid_format_wrong_prefix() {
    let aggregate_id = Uuid::new_v4();
    let result = parse_event_subject(&format!("other.graph.workflow.{}.created", aggregate_id.to_string()));
    assert!(result.is_err());
}

#[test]
fn test_parse_event_subject_invalid_format_wrong_second_segment() {
    let aggregate_id = Uuid::new_v4();
    let result = parse_event_subject(&format!("cim.other.workflow.{}.created", aggregate_id.to_string()));
    assert!(result.is_err());
}

#[test]
fn test_parse_event_subject_unknown_graph_type() {
    let aggregate_id = Uuid::new_v4();
    let result = parse_event_subject(&format!("cim.graph.unknown.{}.created", aggregate_id.to_string()));
    assert!(result.is_err());
    assert!(result.unwrap_err().contains("Unknown graph type"));
}

#[test]
fn test_parse_event_subject_invalid_uuid() {
    let result = parse_event_subject("cim.graph.workflow.invalid-uuid.created");
    assert!(result.is_err());
    assert!(result.unwrap_err().contains("Invalid UUID"));
}

#[test]
fn test_parse_event_subject_unknown_event_type() {
    let aggregate_id = Uuid::new_v4();
    let result = parse_event_subject(&format!("cim.graph.workflow.{}.unknown_event", aggregate_id.to_string()));
    assert!(result.is_err());
    assert!(result.unwrap_err().contains("Unknown event type"));
}

#[test]
fn test_graph_root_constant() {
    assert_eq!(GRAPH_ROOT, "cim.graph");
}

// Subjects for a fixed aggregate, character for character.

#[test]
fn subject_of_a_known_uuid_is_exact() {
    let id = Uuid::parse_str("67e55044-10b1-426f-9247-bb680e5fe0c8").unwrap();
    assert_eq!(
        build_event_subject(GraphType::Concept, id, EventType::EdgeRemoved),
        "cim.graph.concept.67e55044-10b1-426f-9247-bb680e5fe0c8.edge_removed"
    );
    assert_eq!(
        build_graph_subscription(GraphType::Composed, id),
        "cim.graph.composed.67e55044-10b1-426f-9247-bb680e5fe0c8.*"
    );
}

#[test]
fn parse_rejects_six_segments() {
    let id = Uuid::new_v4();
    let result = parse_event_subject(&format!("cim.graph.ipld.{}.created.extra", id.to_string()));
    assert_eq!(result.unwrap_err(), "Invalid subject format");
}

#[test]
fn decode_segments_uses_the_given_uuid() {
    let id = Uuid::parse_str("00000000-0000-0000-0000-000000000001").unwrap();
    let segs: Vec<String> = vec!["cim", "graph", "context", "anything", "deleted"]
        .into_iter()
        .map(|s| s.to_string())
        .collect();
    assert_eq!(
        decode_event_segments(&segs, Some(id)),
        Ok((GraphType::Context, id, EventType::Deleted))
    );
    assert_eq!(
        decode_event_segments(&segs, None),
        Err("Invalid UUID in subject".to_string())
    );
}

#[test]
fn nil_uuid_round_trips_through_a_subject() {
    let id = Uuid::nil();
    let subject = build_event_subject(GraphType::Ipld, id, EventType::Updated);
    assert_eq!(subject, "cim.graph.ipld.00000000-0000-0000-0000-000000000000.updated");
    assert_eq!(parse_event_subject(&subject), Ok((GraphType::Ipld, id, EventType::Updated)));
}
