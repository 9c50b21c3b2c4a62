use cim_graph::error::GraphError;
use cim_graph::graph_core::ipld_chain::{
    create_merkle_proof, generate_cid_for_payload, Cid, IpldChainAggregate, IpldChainCommand,
    IpldChainEvent,
};
use cim_graph::ids::Uuid;
use cim_graph::json::JsonValue;
use std::collections::HashSet;
use std::hash::{Hash, Hasher};

fn s(text: &str) -> JsonValue {
    JsonValue::from_str(text)
}

fn num(n: i64) -> JsonValue {
    JsonValue::from_i64(n)
}

fn obj(members: Vec<(&str, JsonValue)>) -> JsonValue {
    JsonValue::object(members.into_iter().map(|(k, v)| (k.to_string(), v)).collect())
}

#[test]
fn test_ipld_chain_creation() {
    let aggregate_id = Uuid::new_v4();
    let chain = IpldChainAggregate::new(aggregate_id);

    assert_eq!(chain.metadata.aggregate_id, aggregate_id);
    assert_eq!(chain.metadata.length, 0);
    assert!(chain.chain.is_empty());
}

#[test]
fn test_add_events_to_chain() {
    let mut chain = IpldChainAggregate::new(Uuid::new_v4());

    // Add first event
    let event1 = obj(vec![("type", s("NodeAdded")), ("node_id", s("n1"))]);
    let cid1 = chain.add_event(event1.clone()).unwrap();

    assert_eq!(chain.metadata.length, 1);
    assert_eq!(chain.root_cid, cid1);
    assert!(chain.get_previous(&cid1).is_none());

    // Add second event
    let event2 = obj(vec![("type", s("EdgeAdded")), ("edge_id", s("e1"))]);
    let cid2 = chain.add_event(event2.clone()).unwrap();

    assert_eq!(chain.metadata.length, 2);
    assert_eq!(chain.root_cid, cid2);
    assert_eq!(chain.get_previous(&cid2), Some(&cid1));
}

#[test]
fn test_chain_verification() {
    let mut chain = IpldChainAggregate::new(Uuid::new_v4());

    // Empty chain is valid
    assert!(chain.verify_chain().is_ok());

    // Add events
    for i in 0..5 {
        let event = obj(vec![("type", s("Event")), ("index", num(i))]);
        chain.add_event(event).unwrap();
    }

    // Chain should be valid
    assert!(chain.verify_chain().is_ok());
    assert_eq!(chain.metadata.length, 5);
}

#[test]
fn test_get_events_ordered() {
    let mut chain = IpldChainAggregate::new(Uuid::new_v4());

    // Add events
    let events = vec![
        obj(vec![("index", num(0))]),
        obj(vec![("index", num(1))]),
        obj(vec![("index", num(2))]),
    ];

    for event in &events {
        chain.add_event(event.clone()).unwrap();
    }

    // Get ordered events (oldest first)
    let ordered = chain.get_events_ordered();
    assert_eq!(ordered.len(), 3);

    // Check order
    for (i, (_cid, payload)) in ordered.iter().enumerate() {
        assert_eq!(payload.get("index").unwrap().as_i64().unwrap(), i as i64);
    }
}

#[test]
fn test_merkle_proof() {
    let mut chain = IpldChainAggregate::new(Uuid::new_v4());

    // Build a chain
    let mut cids = Vec::new();
    for i in 0..4 {
        let event = obj(vec![("index", num(i))]);
        let cid = chain.add_event(event).unwrap();
        cids.push(cid);
    }

    // Create proof for the second event (index 1)
    // Remember: chain stores newest first, so cids[2] is the second event
    let proof = create_merkle_proof(&chain, &cids[2]).unwrap();

    // Proof should contain path from target to root
    assert_eq!(proof.len(), 3); // cids[2] -> cids[1] -> cids[0]
    assert_eq!(proof[0], cids[2]);
    assert_eq!(proof[1], cids[1]);
    assert_eq!(proof[2], cids[0]);
}

// ========== Cid Tests ==========

#[test]
fn test_cid_new() {
    let cid = Cid::new("QmTestCid");
    assert_eq!(cid.as_str(), "QmTestCid");
}

#[test]
fn test_cid_display() {
    let cid = Cid::new("QmDisplayTest");
    let display_str = cid.to_string();
    assert_eq!(display_str, "QmDisplayTest");
}

#[test]
fn test_cid_debug() {
    let cid = Cid::new("QmDebugTest");
    let debug_str = format!("{:?}", cid);
    assert!(debug_str.contains("QmDebugTest"));
}

#[test]
fn test_cid_clone() {
    let cid1 = Cid::new("QmClone");
    let cid2 = cid1.clone();
    assert_eq!(cid1, cid2);
}

#[test]
fn test_cid_eq() {
    let cid1 = Cid::new("QmSame");
    let cid2 = Cid::new("QmSame");
    let cid3 = Cid::new("QmDifferent");

    assert_eq!(cid1, cid2);
    assert_ne!(cid1, cid3);
}

#[test]
fn test_cid_hash() {
    let cid1 = Cid::new("QmHash1");
    let cid2 = Cid::new("QmHash2");
    let cid3 = Cid::new("QmHash1"); // Same as cid1

    let mut set = HashSet::new();
    set.insert(cid1.clone());
    set.insert(cid2);
    set.insert(cid3);

    assert_eq!(set.len(), 2); // Only 2 unique CIDs
    assert!(set.contains(&cid1));
}

#[test]
fn test_chain_metadata_new_chain() {
    let aggregate_id = Uuid::new_v4();
    let chain = IpldChainAggregate::new(aggregate_id);

    assert_eq!(chain.metadata.aggregate_id, aggregate_id);
    assert_eq!(chain.metadata.length, 0);
    assert_eq!(chain.metadata.codec, "dag-cbor");
    assert!(chain.metadata.verified);
}

#[test]
fn test_chain_metadata_timestamps() {
    let chain = IpldChainAggregate::new(Uuid::new_v4());
    let created_at = chain.metadata.created_at;
    let updated_at = chain.metadata.updated_at;

    // Timestamps should be close
    let diff_nanos = ((updated_at.secs - created_at.secs) as i128 * 1_000_000_000
        + updated_at.nanos as i128 - created_at.nanos as i128).abs();
    assert!(diff_nanos / 1_000_000 < 100);
}

#[test]
fn test_chain_metadata_clone() {
    let chain = IpldChainAggregate::new(Uuid::new_v4());
    let cloned_metadata = chain.metadata.clone();

    assert_eq!(chain.metadata.aggregate_id, cloned_metadata.aggregate_id);
    assert_eq!(chain.metadata.length, cloned_metadata.length);
}

#[test]
fn test_chain_metadata_debug() {
    let chain = IpldChainAggregate::new(Uuid::new_v4());
    let debug_str = format!("{:?}", chain.metadata);
    assert!(debug_str.contains("ChainMetadata"));
    assert!(debug_str.contains("dag-cbor"));
}

// ========== IpldChainAggregate Tests ==========

#[test]
fn test_ipld_chain_get_payload() {
    let mut chain = IpldChainAggregate::new(Uuid::new_v4());

    let event = obj(vec![("test", s("value"))]);
    let cid = chain.add_event(event.clone()).unwrap();

    let payload = chain.get_payload(&cid).unwrap();
    assert_eq!(payload.get("test").unwrap().as_str().unwrap(), "value");
}

#[test]
fn test_ipld_chain_get_payload_nonexistent() {
    let chain = IpldChainAggregate::new(Uuid::new_v4());
    let fake_cid = Cid::new("QmFake");
    assert!(chain.get_payload(&fake_cid).is_none());
}

#[test]
fn test_ipld_chain_get_previous_first_event() {
    let mut chain = IpldChainAggregate::new(Uuid::new_v4());

    let cid = chain.add_event(obj(vec![("first", JsonValue::Bool(true))])).unwrap();

    // First event has no previous
    assert!(chain.get_previous(&cid).is_none());
}

#[test]
fn test_ipld_chain_is_dag() {
    let chain = IpldChainAggregate::new(Uuid::new_v4());
    assert!(chain.is_dag());
}

#[test]
fn chain_of_distinct_payloads_is_a_dag() {
    let mut chain = IpldChainAggregate::new(Uuid::new_v4());
    chain.add_event(obj(vec![("x", s("one"))])).unwrap();
    chain.add_event(obj(vec![("x", s("two"))])).unwrap();
    chain.add_event(obj(vec![("x", s("three"))])).unwrap();
    assert!(chain.is_dag());
}

#[test]
fn repeated_payload_links_a_cid_to_itself() {
    let mut chain = IpldChainAggregate::new(Uuid::new_v4());
    let first = chain.add_event(obj(vec![("x", s("same"))])).unwrap();
    let second = chain.add_event(obj(vec![("x", s("same"))])).unwrap();
    assert_eq!(first, second);
    assert!(!chain.is_dag());
}

#[test]
fn test_ipld_chain_pin_cid() {
    let mut chain = IpldChainAggregate::new(Uuid::new_v4());

    let cid = chain.add_event(obj(vec![("pin", s("me"))])).unwrap();

    // Should succeed for existing CID
    assert!(chain.pin_cid(&cid).is_ok());
}

#[test]
fn test_ipld_chain_pin_nonexistent_cid() {
    let mut chain = IpldChainAggregate::new(Uuid::new_v4());
    let fake_cid = Cid::new("QmFakePin");

    let result = chain.pin_cid(&fake_cid);
    assert!(result.is_err());

    match result.unwrap_err() {
        GraphError::InvalidOperation(msg) => {
            assert!(msg.contains("Cannot pin"));
        }
        _ => panic!("Expected InvalidOperation error"),
    }
}

#[test]
fn test_ipld_chain_unpin_cid() {
    let mut chain = IpldChainAggregate::new(Uuid::new_v4());

    let cid = chain.add_event(obj(vec![("unpin", s("me"))])).unwrap();

    // Should succeed for existing CID
    assert!(chain.unpin_cid(&cid).is_ok());
}

#[test]
fn test_ipld_chain_unpin_nonexistent_cid() {
    let mut chain = IpldChainAggregate::new(Uuid::new_v4());
    let fake_cid = Cid::new("QmFakeUnpin");

    let result = chain.unpin_cid(&fake_cid);
    assert!(result.is_err());

    match result.unwrap_err() {
        GraphError::InvalidOperation(msg) => {
            assert!(msg.contains("Cannot unpin"));
        }
        _ => panic!("Expected InvalidOperation error"),
    }
}

#[test]
fn test_ipld_chain_clone() {
    let mut chain = IpldChainAggregate::new(Uuid::new_v4());
    chain.add_event(obj(vec![("clone", s("test"))])).unwrap();

    let cloned = chain.clone();

    assert_eq!(chain.metadata.length, cloned.metadata.length);
    assert_eq!(chain.root_cid, cloned.root_cid);
    assert_eq!(chain.chain.len(), cloned.chain.len());
}

#[test]
fn test_ipld_chain_debug() {
    let chain = IpldChainAggregate::new(Uuid::new_v4());
    let debug_str = format!("{:?}", chain);
    assert!(debug_str.contains("IpldChainAggregate"));
}

#[test]
fn test_ipld_chain_command_add_event() {
    let command = IpldChainCommand::AddEvent {
        aggregate_id: Uuid::new_v4(),
        payload: obj(vec![("command", s("add"))]),
    };
    let debug_str = format!("{:?}", command);
    assert!(debug_str.contains("AddEvent"));
}

#[test]
fn test_ipld_chain_command_verify_chain() {
    let command = IpldChainCommand::VerifyChain {
        aggregate_id: Uuid::new_v4(),
    };
    let debug_str = format!("{:?}", command);
    assert!(debug_str.contains("VerifyChain"));
}

#[test]
fn test_ipld_chain_command_pin_cid() {
    let command = IpldChainCommand::PinCid {
        aggregate_id: Uuid::new_v4(),
        cid: Cid::new("QmPin"),
    };
    let debug_str = format!("{:?}", command);
    assert!(debug_str.contains("PinCid"));
}

#[test]
fn test_ipld_chain_command_unpin_cid() {
    let command = IpldChainCommand::UnpinCid {
        aggregate_id: Uuid::new_v4(),
        cid: Cid::new("QmUnpin"),
    };
    let debug_str = format!("{:?}", command);
    assert!(debug_str.contains("UnpinCid"));
}

#[test]
fn test_ipld_chain_command_clone() {
    let command = IpldChainCommand::AddEvent {
        aggregate_id: Uuid::new_v4(),
        payload: obj(vec![]),
    };
    let cloned = command.clone();
    let debug_str = format!("{:?}", cloned);
    assert!(debug_str.contains("AddEvent"));
}

#[test]
fn test_ipld_chain_event_event_added() {
    let event = IpldChainEvent::EventAdded {
        aggregate_id: Uuid::new_v4(),
        cid: Cid::new("QmEvent"),
        previous_cid: Some(Cid::new("QmPrevious")),
        sequence: 1,
    };
    let debug_str = format!("{:?}", event);
    assert!(debug_str.contains("EventAdded"));
}

#[test]
fn test_ipld_chain_event_chain_verified() {
    let event = IpldChainEvent::ChainVerified {
        aggregate_id: Uuid::new_v4(),
        root_cid: Cid::new("QmRoot"),
        length: 10,
        is_valid: true,
    };
    let debug_str = format!("{:?}", event);
    assert!(debug_str.contains("ChainVerified"));
    assert!(debug_str.contains("is_valid: true"));
}

#[test]
fn test_ipld_chain_event_cid_pinned() {
    let event = IpldChainEvent::CidPinned {
        aggregate_id: Uuid::new_v4(),
        cid: Cid::new("QmPinned"),
    };
    let debug_str = format!("{:?}", event);
    assert!(debug_str.contains("CidPinned"));
}

#[test]
fn test_ipld_chain_event_cid_unpinned() {
    let event = IpldChainEvent::CidUnpinned {
        aggregate_id: Uuid::new_v4(),
        cid: Cid::new("QmUnpinned"),
    };
    let debug_str = format!("{:?}", event);
    assert!(debug_str.contains("CidUnpinned"));
}

#[test]
fn test_ipld_chain_event_clone() {
    let event = IpldChainEvent::EventAdded {
        aggregate_id: Uuid::new_v4(),
        cid: Cid::new("QmClone"),
        previous_cid: None,
        sequence: 0,
    };
    let cloned = event.clone();
    let debug_str = format!("{:?}", cloned);
    assert!(debug_str.contains("EventAdded"));
}

#[test]
fn test_generate_cid_for_payload() {
    let payload = obj(vec![("test", s("data"))]);
    let cid = generate_cid_for_payload(&payload).unwrap();

    // CID should start with "Qm"
    assert!(cid.as_str().starts_with("Qm"));
}

#[test]
fn test_generate_cid_deterministic() {
    let payload = obj(vec![("deterministic", JsonValue::Bool(true))]);

    let cid1 = generate_cid_for_payload(&payload).unwrap();
    let cid2 = generate_cid_for_payload(&payload).unwrap();

    assert_eq!(cid1, cid2);
}

#[test]
fn test_generate_cid_different_payloads() {
    let payload1 = obj(vec![("key", s("value1"))]);
    let payload2 = obj(vec![("key", s("value2"))]);

    let cid1 = generate_cid_for_payload(&payload1).unwrap();
    let cid2 = generate_cid_for_payload(&payload2).unwrap();

    assert_ne!(cid1, cid2);
}

// ========== create_merkle_proof Tests ==========

#[test]
fn test_create_merkle_proof_single_event() {
    let mut chain = IpldChainAggregate::new(Uuid::new_v4());

    let cid = chain.add_event(obj(vec![("single", JsonValue::Bool(true))])).unwrap();
    let proof = create_merkle_proof(&chain, &cid).unwrap();

    assert_eq!(proof.len(), 1);
    assert_eq!(proof[0], cid);
}

#[test]
fn test_create_merkle_proof_root() {
    let mut chain = IpldChainAggregate::new(Uuid::new_v4());

    for i in 0..5 {
        chain.add_event(obj(vec![("index", num(i))])).unwrap();
    }

    // Proof for root (most recent) should be entire chain
    let proof = create_merkle_proof(&chain, &chain.root_cid).unwrap();
    assert_eq!(proof.len(), 5);
}

#[test]
fn test_create_merkle_proof_empty_chain() {
    let chain = IpldChainAggregate::new(Uuid::new_v4());
    let fake_cid = Cid::new("QmFake");

    // Proof for non-existent CID should just contain the CID
    let proof = create_merkle_proof(&chain, &fake_cid).unwrap();
    assert_eq!(proof.len(), 1);
    assert_eq!(proof[0], fake_cid);
}

// ========== Chain Verification Edge Cases ==========

#[test]
fn test_verify_chain_with_many_events() {
    let mut chain = IpldChainAggregate::new(Uuid::new_v4());

    for i in 0..100 {
        chain.add_event(obj(vec![("index", num(i))])).unwrap();
    }

    assert!(chain.verify_chain().is_ok());
    assert_eq!(chain.metadata.length, 100);
}

#[test]
fn test_get_events_ordered_empty_chain() {
    let chain = IpldChainAggregate::new(Uuid::new_v4());
    let ordered = chain.get_events_ordered();
    assert!(ordered.is_empty());
}

#[test]
fn test_chain_updated_at_changes() {
    let mut chain = IpldChainAggregate::new(Uuid::new_v4());
    let initial_updated = chain.metadata.updated_at;

    // Add event
    chain.add_event(obj(vec![("update", JsonValue::Bool(true))])).unwrap();
    let after_update = chain.metadata.updated_at;

    // Updated time should be same or later
    assert!(after_update >= initial_updated);
}

#[test]
fn test_chain_length_increments() {
    let mut chain = IpldChainAggregate::new(Uuid::new_v4());

    for i in 0..5 {
        assert_eq!(chain.metadata.length, i);
        chain.add_event(obj(vec![("index", num(i as i64))])).unwrap();
        assert_eq!(chain.metadata.length, i + 1);
    }
}


// Content ids are "Qm" and the hexadecimal hash of the payload's JSON text.

#[test]
fn cid_is_qm_and_the_hash_of_the_json_text() {
    let payload = obj(vec![("b", num(2)), ("a", s("x"))]);
    let mut hasher = std::collections::hash_map::DefaultHasher::new();
    "{\"a\":\"x\",\"b\":2}".to_string().hash(&mut hasher);
    let expected = format!("Qm{:x}", hasher.finish());
    assert_eq!(generate_cid_for_payload(&payload).unwrap().as_str(), expected);
}

#[test]
fn merkle_proof_walks_back_to_the_first_event() {
    let mut chain = IpldChainAggregate::new(Uuid::new_v4());
    let a = chain.add_event(obj(vec![("n", num(1))])).unwrap();
    let b = chain.add_event(obj(vec![("n", num(2))])).unwrap();
    let c = chain.add_event(obj(vec![("n", num(3))])).unwrap();
    assert_eq!(create_merkle_proof(&chain, &c).unwrap(), vec![c.clone(), b.clone(), a.clone()]);
    assert_eq!(chain.chain, vec![c, b, a]);
}

#[test]
fn same_payload_twice_still_counts_two_events() {
    let mut chain = IpldChainAggregate::new(Uuid::new_v4());
    chain.add_event(obj(vec![("same", JsonValue::Bool(true))])).unwrap();
    chain.add_event(obj(vec![("same", JsonValue::Bool(true))])).unwrap();
    assert_eq!(chain.metadata.length, 2);
}
