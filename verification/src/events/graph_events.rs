//! Event and command schemas for every graph type.
//!
//! Every event carries a correlation id and, where another event caused it,
//! a causation id. Sequence numbers and timestamps come from the stream.

use vstd::prelude::*;
use vstd::string::*;
use crate::ids::{Uuid, uuid_text, lemma_uuid_text_has_no_dot};
use crate::json::JsonValue;

verus! {

/// An event: ids that place it in the stream, and its payload.
#[derive(Debug, Clone)]
pub struct GraphEvent {
    /// Unique event id
    pub event_id: Uuid,
    /// Aggregate this event belongs to
    pub aggregate_id: Uuid,
    /// Links related events across aggregates
    pub correlation_id: Uuid,
    /// The event that caused this one, if any
    pub causation_id: Option<Uuid>,
    /// What happened
    pub payload: EventPayload,
}

/// Event payloads, one family per graph type.
#[derive(Debug, Clone)]
pub enum EventPayload {
    /// Generic graph operations
    Generic(GenericPayload),
    /// IPLD graph operations
    Ipld(IpldPayload),
    /// Context graph operations
    Context(ContextPayload),
    /// Workflow operations
    Workflow(WorkflowPayload),
    /// Concept graph operations
    Concept(ConceptPayload),
    /// Composed graph operations
    Composed(ComposedPayload),
}

/// Payload of a generic graph operation.
#[derive(Debug, Clone)]
pub struct GenericPayload {
    /// Event type name
    pub event_type: String,
    /// Event data
    pub data: JsonValue,
}

/// Content-addressed (IPLD) payloads.
#[derive(Debug, Clone)]
pub enum IpldPayload {
    /// A new CID was added to the graph
    CidAdded {
        /// Content identifier of the data
        cid: String,
        /// Codec used to encode the data (such as "dag-cbor")
        codec: String,
        /// Size of the data in bytes
        size: u64,
        /// The data itself
        data: JsonValue,
    },
    /// A link from one CID to another
    CidLinkAdded {
        /// Source CID
        cid: String,
        /// Name of the link
        link_name: String,
        /// Target CID
        target_cid: String,
    },
    /// A CID was pinned
    CidPinned {
        /// The pinned CID
        cid: String,
        /// Whether linked CIDs are pinned too
        recursive: bool,
    },
    /// A CID was unpinned
    CidUnpinned {
        /// The unpinned CID
        cid: String,
    },
}

/// Domain-driven design (context graph) payloads.
#[derive(Debug, Clone)]
pub enum ContextPayload {
    /// A bounded context was created
    BoundedContextCreated {
        /// Id of the bounded context
        context_id: String,
        /// Its name
        name: String,
        /// Its purpose and scope
        description: String,
    },
    /// An aggregate was added to a context
    AggregateAdded {
        /// The context
        context_id: String,
        /// The aggregate
        aggregate_id: Uuid,
        /// Its type (such as "Order")
        aggregate_type: String,
    },
    /// An entity was added to an aggregate
    EntityAdded {
        /// The aggregate
        aggregate_id: Uuid,
        /// The entity
        entity_id: Uuid,
        /// Its type
        entity_type: String,
        /// Its initial properties
        properties: JsonValue,
    },
    /// A value object was attached
    ValueObjectAttached {
        /// The parent entity or aggregate
        parent_id: Uuid,
        /// Type of the value object
        value_type: String,
        /// Its data
        value_data: JsonValue,
    },
    /// A relationship between entities
    RelationshipEstablished {
        /// Source entity
        source_id: Uuid,
        /// Target entity
        target_id: Uuid,
        /// Kind of relationship
        relationship_type: String,
    },
}

/// Workflow payloads.
#[derive(Debug, Clone)]
pub enum WorkflowPayload {
    /// A workflow was defined
    WorkflowDefined {
        /// The workflow
        workflow_id: Uuid,
        /// Its name
        name: String,
        /// Its version
        version: String,
    },
    /// A state was added to a workflow
    StateAdded {
        /// The workflow
        workflow_id: Uuid,
        /// The state
        state_id: String,
        /// Its type (such as "initial")
        state_type: String,
    },
    /// A transition was added
    TransitionAdded {
        /// The workflow
        workflow_id: Uuid,
        /// From this state
        from_state: String,
        /// To this state
        to_state: String,
        /// Triggered by
        trigger: String,
    },
    /// An instance of a workflow was created
    InstanceCreated {
        /// The workflow
        workflow_id: Uuid,
        /// The instance
        instance_id: Uuid,
        /// Its initial state
        initial_state: String,
    },
    /// An instance moved between states
    StateTransitioned {
        /// The instance
        instance_id: Uuid,
        /// From this state
        from_state: String,
        /// To this state
        to_state: String,
    },
}

/// Concept graph payloads. A real number is held as the JSON value that
/// `serde_json` gives it: a number, or null when it is not finite.
#[derive(Debug, Clone)]
pub enum ConceptPayload {
    /// A concept was defined
    ConceptDefined {
        /// The concept
        concept_id: String,
        /// Its name
        name: String,
        /// Its definition
        definition: String,
    },
    /// Properties were added to a concept
    PropertiesAdded {
        /// The concept
        concept_id: String,
        /// Property names with their values (real numbers)
        properties: Vec<(String, JsonValue)>,
    },
    /// A semantic relation was added
    RelationAdded {
        /// Source concept
        source_concept: String,
        /// Target concept
        target_concept: String,
        /// Kind of relation (such as "is-a")
        relation_type: String,
        /// Strength of the relation (a real number)
        strength: JsonValue,
    },
    /// A property was inferred
    PropertyInferred {
        /// The concept
        concept_id: String,
        /// The property
        property_name: String,
        /// Inferred value (a real number)
        inferred_value: JsonValue,
        /// Confidence (a real number)
        confidence: JsonValue,
    },
}

/// Composed graph payloads.
#[derive(Debug, Clone)]
pub enum ComposedPayload {
    /// A sub-graph was added
    SubGraphAdded {
        /// The sub-graph
        subgraph_id: Uuid,
        /// Its graph type
        graph_type: String,
        /// Its namespace
        namespace: String,
    },
    /// A link across graphs was created
    CrossGraphLinkCreated {
        /// Source graph
        source_graph: Uuid,
        /// Node in the source graph
        source_node: String,
        /// Target graph
        target_graph: Uuid,
        /// Node in the target graph
        target_node: String,
    },
}

/// Commands request state changes; they may be rejected.
#[derive(Debug, Clone)]
pub enum GraphCommand {
    /// Initialize a graph
    InitializeGraph {
        /// The graph aggregate
        aggregate_id: Uuid,
        /// Its type
        graph_type: String,
        /// Correlation id
        correlation_id: Uuid,
    },
    /// An IPLD command
    Ipld {
        /// The graph aggregate
        aggregate_id: Uuid,
        /// Correlation id
        correlation_id: Uuid,
        /// The command
        command: IpldCommand,
    },
    /// A context command
    Context {
        /// The graph aggregate
        aggregate_id: Uuid,
        /// Correlation id
        correlation_id: Uuid,
        /// The command
        command: ContextCommand,
    },
    /// A workflow command
    Workflow {
        /// The graph aggregate
        aggregate_id: Uuid,
        /// Correlation id
        correlation_id: Uuid,
        /// The command
        command: WorkflowCommand,
    },
    /// A concept command
    Concept {
        /// The graph aggregate
        aggregate_id: Uuid,
        /// Correlation id
        correlation_id: Uuid,
        /// The command
        command: ConceptCommand,
    },
    /// A composed-graph command
    Composed {
        /// The graph aggregate
        aggregate_id: Uuid,
        /// Correlation id
        correlation_id: Uuid,
        /// The command
        command: ComposedCommand,
    },
    /// Archive a graph
    ArchiveGraph {
        /// The graph aggregate
        aggregate_id: Uuid,
        /// Correlation id
        correlation_id: Uuid,
    },
    /// A generic command
    Generic {
        /// The graph aggregate
        aggregate_id: Uuid,
        /// Correlation id
        correlation_id: Uuid,
        /// Command name
        command: String,
        /// Command data
        data: JsonValue,
    },
}

/// IPLD commands.
#[derive(Debug, Clone)]
pub enum IpldCommand {
    /// Add a CID
    AddCid {
        /// The CID
        cid: String,
        /// Its codec
        codec: String,
        /// Size in bytes
        size: u64,
        /// The data
        data: JsonValue,
    },
    /// Link two CIDs
    LinkCids {
        /// Source CID
        source_cid: String,
        /// Target CID
        target_cid: String,
        /// Link name
        link_name: String,
    },
    /// Pin a CID
    PinCid {
        /// The CID
        cid: String,
        /// Pin linked CIDs too
        recursive: bool,
    },
    /// Unpin a CID
    UnpinCid {
        /// The CID
        cid: String,
    },
}

/// Context commands.
#[derive(Debug, Clone)]
pub enum ContextCommand {
    /// Create a bounded context
    CreateBoundedContext {
        /// Its id
        context_id: String,
        /// Its name
        name: String,
        /// Its description
        description: String,
    },
    /// Add an aggregate to a context
    AddAggregate {
        /// The context
        context_id: String,
        /// The aggregate
        aggregate_id: Uuid,
        /// Its type
        aggregate_type: String,
    },
    /// Add an entity to an aggregate
    AddEntity {
        /// The aggregate
        aggregate_id: Uuid,
        /// The entity
        entity_id: Uuid,
        /// Its type
        entity_type: String,
        /// Its properties
        properties: JsonValue,
    },
}

/// Workflow commands.
#[derive(Debug, Clone)]
pub enum WorkflowCommand {
    /// Define a workflow
    DefineWorkflow {
        /// The workflow
        workflow_id: Uuid,
        /// Its name
        name: String,
        /// Its version
        version: String,
    },
    /// Add a state
    AddState {
        /// The workflow
        workflow_id: Uuid,
        /// The state
        state_id: String,
        /// Its type
        state_type: String,
    },
    /// Add a transition
    AddTransition {
        /// The workflow
        workflow_id: Uuid,
        /// From this state
        from_state: String,
        /// To this state
        to_state: String,
        /// Triggered by
        trigger: String,
    },
    /// Create an instance
    CreateInstance {
        /// The workflow
        workflow_id: Uuid,
        /// The new instance
        instance_id: Uuid,
    },
    /// Trigger a transition of an instance
    TriggerTransition {
        /// The instance
        instance_id: Uuid,
        /// The trigger
        trigger: String,
    },
}

/// Concept commands. Real numbers are held as in `ConceptPayload`.
#[derive(Debug, Clone)]
pub enum ConceptCommand {
    /// Define a concept
    DefineConcept {
        /// Its id
        concept_id: String,
        /// Its name
        name: String,
        /// Its definition
        definition: String,
    },
    /// Add properties to a concept
    AddProperties {
        /// The concept
        concept_id: String,
        /// Property names with values (real numbers)
        properties: Vec<(String, JsonValue)>,
    },
    /// Add a relation between concepts
    AddRelation {
        /// Source concept
        source_concept: String,
        /// Target concept
        target_concept: String,
        /// Kind of relation
        relation_type: String,
        /// Strength (a real number)
        strength: JsonValue,
    },
}

/// Composed-graph commands.
#[derive(Debug, Clone)]
pub enum ComposedCommand {
    /// Add a sub-graph
    AddSubGraph {
        /// The sub-graph
        subgraph_id: Uuid,
        /// Its type
        graph_type: String,
        /// Its namespace
        namespace: String,
    },
    /// Link nodes of two graphs
    LinkAcrossGraphs {
        /// Source graph
        source_graph: Uuid,
        /// Node in the source graph
        source_node: String,
        /// Target graph
        target_graph: Uuid,
        /// Node in the target graph
        target_node: String,
    },
}

/// The NATS headers of an event, in the order they are written: message id,
/// correlation id, causation id (when there is one), aggregate id.
pub open spec fn nats_headers_of(event: GraphEvent) -> Seq<(Seq<char>, Seq<char>)> {
    let head = seq![("Nats-Msg-Id"@, uuid_text(event.event_id.0)), ("Correlation-Id"@, uuid_text(event.correlation_id.0))];
    let mid = match event.causation_id {
        Some(c) => head.push(("Causation-Id"@, uuid_text(c.0))),
        None => head,
    };
    mid.push(("Aggregate-Id"@, uuid_text(event.aggregate_id.0)))
}

/// The NATS headers of an event: its message id, correlation id, causation
/// id (when there is one) and aggregate id, as (name, value) pairs.
pub fn event_to_nats_headers(event: &GraphEvent) -> (headers: Vec<(String, String)>)
    ensures
        headers@.len() == nats_headers_of(*event).len(),
        forall|i: int| 0 <= i < headers@.len() ==>
            (#[trigger] headers@[i]).0@ == nats_headers_of(*event)[i].0 && headers@[i].1@ == nats_headers_of(*event)[i].1,
{
    let mut headers: Vec<(String, String)> = Vec::new();
    headers.push((String::from_str("Nats-Msg-Id"), event.event_id.to_string()));
    headers.push((String::from_str("Correlation-Id"), event.correlation_id.to_string()));
    match event.causation_id {
        Some(c) => headers.push((String::from_str("Causation-Id"), c.to_string())),
        None => {},
    }
    headers.push((String::from_str("Aggregate-Id"), event.aggregate_id.to_string()));
    headers
}

/// The name of a payload's graph family.
pub open spec fn payload_family(p: EventPayload) -> Seq<char> {
    match p {
        EventPayload::Generic(_) => "generic"@,
        EventPayload::Ipld(_) => "ipld"@,
        EventPayload::Context(_) => "context"@,
        EventPayload::Workflow(_) => "workflow"@,
        EventPayload::Concept(_) => "concept"@,
        EventPayload::Composed(_) => "composed"@,
    }
}

impl EventPayload {
    /// The event type: the name of the payload's graph family.
    pub fn event_type(&self) -> (r: &'static str)
        ensures
            r@ == payload_family(*self),
    {
        match self {
            EventPayload::Generic(_) => "generic",
            EventPayload::Ipld(_) => "ipld",
            EventPayload::Context(_) => "context",
            EventPayload::Workflow(_) => "workflow",
            EventPayload::Concept(_) => "concept",
            EventPayload::Composed(_) => "composed",
        }
    }
}

/// The content id given to a graph when it is initialized: "Qm" followed by
/// the first sixteen characters of the aggregate id's hyphenated text.
pub(crate) fn initial_cid(aggregate_id: Uuid) -> (s: String)
    ensures
        s@ == "Qm"@ + uuid_text(aggregate_id.0).take(16),
{
    let id_text = aggregate_id.to_string();
    proof { lemma_uuid_text_has_no_dot(aggregate_id.0); }
    let prefix = id_text.as_str().substring_char(0, 16);
    proof { reveal_strlit("Qm"); }
    String::from_str("Qm").concat(prefix)
}

} // verus!
