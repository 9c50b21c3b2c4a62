//! Command handlers: they validate commands against the current projection
//! and answer with the events that a valid command produces.

use vstd::prelude::*;
use vstd::string::*;
use std::collections::HashMap;
use crate::error::{GraphError, Result};
use crate::events::graph_events::{
    GraphEvent, GraphCommand, EventPayload, IpldCommand, IpldPayload, ContextCommand,
    ContextPayload, WorkflowCommand, WorkflowPayload, ConceptCommand, ConceptPayload,
    ComposedCommand, ComposedPayload, initial_cid,
};
use crate::graph_core::cim_graph::GraphProjection;
use crate::ids::{Uuid, uuid_text, uuid_nibble};
use crate::json::{JsonValue, JsonView, json_view};

verus! {

broadcast use vstd::std_specs::hash::group_hash_axioms;

/// Validates commands against a projection and produces events.
pub trait CommandHandler<P: GraphProjection> {
    /// Handles a command: the events it produces when it is valid, or why
    /// it was rejected.
    fn handle(&self, command: GraphCommand, projection: &P) -> Result<Vec<GraphEvent>>;
}

/// Why a command is rejected, by the error it is answered with.
pub enum Rejection {
    /// `GraphError::DuplicateNode` with this id
    Duplicate(Seq<char>),
    /// `GraphError::NodeNotFound` with this id
    Missing(Seq<char>),
    /// `GraphError::InvalidOperation` with this message
    Invalid(Seq<char>),
}

/// Whether `r` is the rejection `why`.
pub open spec fn rejects(r: Result<Vec<GraphEvent>>, why: Rejection) -> bool {
    match why {
        Rejection::Duplicate(id) => r matches Err(GraphError::DuplicateNode(s)) && s@ == id,
        Rejection::Missing(id) => r matches Err(GraphError::NodeNotFound(s)) && s@ == id,
        Rejection::Invalid(m) => r matches Err(GraphError::InvalidOperation(s)) && s@ == m,
    }
}

/// Whether `e` is a new event of an aggregate: a fresh (version 4) event id,
/// the given aggregate and correlation ids, and no causation.
pub open spec fn new_event_of(e: GraphEvent, aggregate_id: Uuid, correlation_id: Uuid) -> bool {
    &&& uuid_nibble(e.event_id.0, 12) == 4
    &&& e.aggregate_id == aggregate_id
    &&& e.correlation_id == correlation_id
    &&& e.causation_id is None
}

/// Whether `r` is exactly one new event of the aggregate with this payload.
pub open spec fn emits(r: Result<Vec<GraphEvent>>, aggregate_id: Uuid, correlation_id: Uuid, payload: EventPayload) -> bool {
    r matches Ok(events) && events@.len() == 1 && new_event_of(events@[0], aggregate_id, correlation_id)
        && events@[0].payload == payload
}

/// A new event of an aggregate.
fn new_event(aggregate_id: Uuid, correlation_id: Uuid, payload: EventPayload) -> (r: Result<Vec<GraphEvent>>)
    ensures
        emits(r, aggregate_id, correlation_id, payload),
{
    let e = GraphEvent { event_id: Uuid::new_v4(), aggregate_id, correlation_id, causation_id: None, payload };
    let mut events: Vec<GraphEvent> = Vec::new();
    events.push(e);
    Ok(events)
}

/// An `InvalidOperation` rejection with this message.
fn invalid(message: &str) -> (r: Result<Vec<GraphEvent>>)
    ensures
        rejects(r, Rejection::Invalid(message@)),
{
    Err(GraphError::InvalidOperation(String::from_str(message)))
}

/// The answer of the generic handler: only initialization, of a projection
/// still at version 0, which produces the content-addressed root of the graph.
pub open spec fn generic_answer<P: GraphProjection>(command: GraphCommand, projection: P, r: Result<Vec<GraphEvent>>) -> bool {
    match command {
        GraphCommand::InitializeGraph { aggregate_id, graph_type, correlation_id } =>
            if projection.spec_version() > 0 {
                rejects(r, Rejection::Invalid("Graph already initialized"@))
            } else {
                &&& r matches Ok(events) && events@.len() == 1 && new_event_of(events@[0], aggregate_id, correlation_id)
                &&& r->Ok_0@[0].payload matches EventPayload::Ipld(IpldPayload::CidAdded { cid, codec, size, data })
                &&& cid@ == "Qm"@ + uuid_text(aggregate_id.0).take(16)
                &&& codec@ == "dag-cbor"@
                &&& size == 0
                &&& json_view(data) == JsonView::Object(seq![("initialized"@, JsonView::Bool(true)), ("type"@, JsonView::Str(graph_type@))])
            },
        _ => rejects(r, Rejection::Invalid("Handler does not support this command type"@)),
    }
}

/// Handles graph initialization only.
#[derive(Debug)]
pub struct GenericCommandHandler;

impl<P: GraphProjection> CommandHandler<P> for GenericCommandHandler {
    fn handle(&self, command: GraphCommand, projection: &P) -> (r: Result<Vec<GraphEvent>>)
        ensures
            generic_answer(command, *projection, r),
    {
        match command {
            GraphCommand::InitializeGraph { aggregate_id, graph_type, correlation_id } => {
                if projection.version() > 0 {
                    return invalid("Graph already initialized");
                }
                let data = JsonValue::object(vec![
                    (String::from_str("initialized"), JsonValue::Bool(true)),
                    (String::from_str("type"), JsonValue::String(graph_type)),
                ]);
                proof {
                    assert(json_view(data)->Object_0 =~= seq![("initialized"@, JsonView::Bool(true)), ("type"@, JsonView::Str(graph_type@))]);
                }
                let payload = EventPayload::Ipld(IpldPayload::CidAdded {
                    cid: initial_cid(aggregate_id),
                    codec: String::from_str("dag-cbor"),
                    size: 0,
                    data,
                });
                new_event(aggregate_id, correlation_id, payload)
            },
            _ => invalid("Handler does not support this command type"),
        }
    }
}

/// The answer of the IPLD handler: a content id may be added once; links,
/// pins and unpins need the content ids they name.
pub open spec fn ipld_answer<P: GraphProjection>(command: GraphCommand, projection: P, r: Result<Vec<GraphEvent>>) -> bool {
    match command {
        GraphCommand::Ipld { aggregate_id, correlation_id, command } => match command {
            IpldCommand::AddCid { cid, codec, size, data } =>
                if projection.spec_has_node(cid@) {
                    rejects(r, Rejection::Duplicate(cid@))
                } else {
                    emits(r, aggregate_id, correlation_id, EventPayload::Ipld(IpldPayload::CidAdded { cid, codec, size, data }))
                },
            IpldCommand::LinkCids { source_cid, target_cid, link_name } =>
                if !projection.spec_has_node(source_cid@) {
                    rejects(r, Rejection::Missing(source_cid@))
                } else if !projection.spec_has_node(target_cid@) {
                    rejects(r, Rejection::Missing(target_cid@))
                } else {
                    emits(r, aggregate_id, correlation_id,
                        EventPayload::Ipld(IpldPayload::CidLinkAdded { cid: source_cid, link_name, target_cid }))
                },
            IpldCommand::PinCid { cid, recursive } =>
                if !projection.spec_has_node(cid@) {
                    rejects(r, Rejection::Missing(cid@))
                } else {
                    emits(r, aggregate_id, correlation_id, EventPayload::Ipld(IpldPayload::CidPinned { cid, recursive }))
                },
            IpldCommand::UnpinCid { cid } =>
                if !projection.spec_has_node(cid@) {
                    rejects(r, Rejection::Missing(cid@))
                } else {
                    emits(r, aggregate_id, correlation_id, EventPayload::Ipld(IpldPayload::CidUnpinned { cid }))
                },
        },
        _ => rejects(r, Rejection::Invalid("Not an IPLD command"@)),
    }
}

/// Handles IPLD commands.
#[derive(Debug)]
pub struct IpldCommandHandler;

impl<P: GraphProjection> CommandHandler<P> for IpldCommandHandler {
    fn handle(&self, command: GraphCommand, projection: &P) -> (r: Result<Vec<GraphEvent>>)
        ensures
            ipld_answer(command, *projection, r),
    {
        match command {
            GraphCommand::Ipld { aggregate_id, correlation_id, command } => match command {
                IpldCommand::AddCid { cid, codec, size, data } => {
                    if projection.get_node(cid.as_str()).is_some() {
                        return Err(GraphError::DuplicateNode(cid));
                    }
                    new_event(aggregate_id, correlation_id, EventPayload::Ipld(IpldPayload::CidAdded { cid, codec, size, data }))
                },
                IpldCommand::LinkCids { source_cid, target_cid, link_name } => {
                    if projection.get_node(source_cid.as_str()).is_none() {
                        return Err(GraphError::NodeNotFound(source_cid));
                    }
                    if projection.get_node(target_cid.as_str()).is_none() {
                        return Err(GraphError::NodeNotFound(target_cid));
                    }
                    new_event(aggregate_id, correlation_id,
                        EventPayload::Ipld(IpldPayload::CidLinkAdded { cid: source_cid, link_name, target_cid }))
                },
                IpldCommand::PinCid { cid, recursive } => {
                    if projection.get_node(cid.as_str()).is_none() {
                        return Err(GraphError::NodeNotFound(cid));
                    }
                    new_event(aggregate_id, correlation_id, EventPayload::Ipld(IpldPayload::CidPinned { cid, recursive }))
                },
                IpldCommand::UnpinCid { cid } => {
                    if projection.get_node(cid.as_str()).is_none() {
                        return Err(GraphError::NodeNotFound(cid));
                    }
                    new_event(aggregate_id, correlation_id, EventPayload::Ipld(IpldPayload::CidUnpinned { cid }))
                },
            },
            _ => invalid("Not an IPLD command"),
        }
    }
}

/// The answer of the context handler: a bounded context may be created once;
/// aggregates need their context, entities their aggregate (by its id's text).
pub open spec fn context_answer<P: GraphProjection>(command: GraphCommand, projection: P, r: Result<Vec<GraphEvent>>) -> bool {
    match command {
        GraphCommand::Context { aggregate_id, correlation_id, command } => match command {
            ContextCommand::CreateBoundedContext { context_id, name, description } =>
                if projection.spec_has_node(context_id@) {
                    rejects(r, Rejection::Duplicate(context_id@))
                } else {
                    emits(r, aggregate_id, correlation_id,
                        EventPayload::Context(ContextPayload::BoundedContextCreated { context_id, name, description }))
                },
            ContextCommand::AddAggregate { context_id, aggregate_id: agg_id, aggregate_type } =>
                if !projection.spec_has_node(context_id@) {
                    rejects(r, Rejection::Missing(context_id@))
                } else {
                    emits(r, aggregate_id, correlation_id,
                        EventPayload::Context(ContextPayload::AggregateAdded { context_id, aggregate_id: agg_id, aggregate_type }))
                },
            ContextCommand::AddEntity { aggregate_id: agg_id, entity_id, entity_type, properties } =>
                if !projection.spec_has_node(uuid_text(agg_id.0)) {
                    rejects(r, Rejection::Missing(uuid_text(agg_id.0)))
                } else {
                    emits(r, aggregate_id, correlation_id,
                        EventPayload::Context(ContextPayload::EntityAdded { aggregate_id: agg_id, entity_id, entity_type, properties }))
                },
        },
        _ => rejects(r, Rejection::Invalid("Not a Context command"@)),
    }
}

/// Handles context (domain-driven design) commands.
#[derive(Debug)]
pub struct ContextCommandHandler;

impl<P: GraphProjection> CommandHandler<P> for ContextCommandHandler {
    fn handle(&self, command: GraphCommand, projection: &P) -> (r: Result<Vec<GraphEvent>>)
        ensures
            context_answer(command, *projection, r),
    {
        match command {
            GraphCommand::Context { aggregate_id, correlation_id, command } => match command {
                ContextCommand::CreateBoundedContext { context_id, name, description } => {
                    if projection.get_node(context_id.as_str()).is_some() {
                        return Err(GraphError::DuplicateNode(context_id));
                    }
                    new_event(aggregate_id, correlation_id,
                        EventPayload::Context(ContextPayload::BoundedContextCreated { context_id, name, description }))
                },
                ContextCommand::AddAggregate { context_id, aggregate_id: agg_id, aggregate_type } => {
                    if projection.get_node(context_id.as_str()).is_none() {
                        return Err(GraphError::NodeNotFound(context_id));
                    }
                    new_event(aggregate_id, correlation_id,
                        EventPayload::Context(ContextPayload::AggregateAdded { context_id, aggregate_id: agg_id, aggregate_type }))
                },
                ContextCommand::AddEntity { aggregate_id: agg_id, entity_id, entity_type, properties } => {
                    let agg_text = agg_id.to_string();
                    if projection.get_node(agg_text.as_str()).is_none() {
                        return Err(GraphError::NodeNotFound(agg_text));
                    }
                    new_event(aggregate_id, correlation_id,
                        EventPayload::Context(ContextPayload::EntityAdded { aggregate_id: agg_id, entity_id, entity_type, properties }))
                },
            },
            _ => invalid("Not a Context command"),
        }
    }
}

/// Handles workflow commands, knowing the current state of workflow instances.
#[derive(Debug)]
pub struct WorkflowCommandHandler {
    instance_states: HashMap<u128, String>,
}

/// The state an instance is in, by what the handler knows: "initial" for an
/// instance it does not know.
pub open spec fn known_state(states: Map<u128, Seq<char>>, instance_id: Uuid) -> Seq<char> {
    if states.contains_key(instance_id.0) { states[instance_id.0] } else { "initial"@ }
}

impl WorkflowCommandHandler {
    /// The current state of each known instance.
    pub closed spec fn instance_states(&self) -> Map<u128, Seq<char>> {
        self.instance_states@.map_values(|s: String| s@)
    }

    /// A handler that knows no instances.
    pub fn new() -> (h: Self)
        ensures
            h.instance_states() == Map::<u128, Seq<char>>::empty(),
    {
        let h = WorkflowCommandHandler { instance_states: HashMap::new() };
        assert(h.instance_states() =~= Map::<u128, Seq<char>>::empty());
        h
    }
}

/// The answer of the workflow handler: transitions need both states; a new
/// instance starts in "initial"; triggering moves an instance from its known
/// state to "next".
pub open spec fn workflow_answer<P: GraphProjection>(
    command: GraphCommand,
    projection: P,
    states: Map<u128, Seq<char>>,
    r: Result<Vec<GraphEvent>>,
) -> bool {
    match command {
        GraphCommand::Workflow { aggregate_id, correlation_id, command } => match command {
            WorkflowCommand::DefineWorkflow { workflow_id, name, version } =>
                emits(r, aggregate_id, correlation_id,
                    EventPayload::Workflow(WorkflowPayload::WorkflowDefined { workflow_id, name, version })),
            WorkflowCommand::AddState { workflow_id, state_id, state_type } =>
                emits(r, aggregate_id, correlation_id,
                    EventPayload::Workflow(WorkflowPayload::StateAdded { workflow_id, state_id, state_type })),
            WorkflowCommand::AddTransition { workflow_id, from_state, to_state, trigger } =>
                if !projection.spec_has_node(from_state@) {
                    rejects(r, Rejection::Missing(from_state@))
                } else if !projection.spec_has_node(to_state@) {
                    rejects(r, Rejection::Missing(to_state@))
                } else {
                    emits(r, aggregate_id, correlation_id,
                        EventPayload::Workflow(WorkflowPayload::TransitionAdded { workflow_id, from_state, to_state, trigger }))
                },
            WorkflowCommand::CreateInstance { workflow_id, instance_id } => {
                &&& r matches Ok(events) && events@.len() == 1 && new_event_of(events@[0], aggregate_id, correlation_id)
                &&& r->Ok_0@[0].payload matches EventPayload::Workflow(WorkflowPayload::InstanceCreated { workflow_id: w, instance_id: i, initial_state })
                &&& w == workflow_id && i == instance_id && initial_state@ == "initial"@
            },
            WorkflowCommand::TriggerTransition { instance_id, trigger } => {
                &&& r matches Ok(events) && events@.len() == 1 && new_event_of(events@[0], aggregate_id, correlation_id)
                &&& r->Ok_0@[0].payload matches EventPayload::Workflow(WorkflowPayload::StateTransitioned { instance_id: i, from_state, to_state })
                &&& i == instance_id && from_state@ == known_state(states, instance_id) && to_state@ == "next"@
            },
        },
        _ => rejects(r, Rejection::Invalid("Not a Workflow command"@)),
    }
}

impl<P: GraphProjection> CommandHandler<P> for WorkflowCommandHandler {
    fn handle(&self, command: GraphCommand, projection: &P) -> (r: Result<Vec<GraphEvent>>)
        ensures
            workflow_answer(command, *projection, self.instance_states(), r),
    {
        match command {
            GraphCommand::Workflow { aggregate_id, correlation_id, command } => match command {
                WorkflowCommand::DefineWorkflow { workflow_id, name, version } =>
                    new_event(aggregate_id, correlation_id,
                        EventPayload::Workflow(WorkflowPayload::WorkflowDefined { workflow_id, name, version })),
                WorkflowCommand::AddState { workflow_id, state_id, state_type } =>
                    new_event(aggregate_id, correlation_id,
                        EventPayload::Workflow(WorkflowPayload::StateAdded { workflow_id, state_id, state_type })),
                WorkflowCommand::AddTransition { workflow_id, from_state, to_state, trigger } => {
                    if projection.get_node(from_state.as_str()).is_none() {
                        return Err(GraphError::NodeNotFound(from_state));
                    }
                    if projection.get_node(to_state.as_str()).is_none() {
                        return Err(GraphError::NodeNotFound(to_state));
                    }
                    new_event(aggregate_id, correlation_id,
                        EventPayload::Workflow(WorkflowPayload::TransitionAdded { workflow_id, from_state, to_state, trigger }))
                },
                WorkflowCommand::CreateInstance { workflow_id, instance_id } => {
                    let payload = EventPayload::Workflow(WorkflowPayload::InstanceCreated {
                        workflow_id,
                        instance_id,
                        initial_state: String::from_str("initial"),
                    });
                    new_event(aggregate_id, correlation_id, payload)
                },
                WorkflowCommand::TriggerTransition { instance_id, trigger: _ } => {
                    let from_state = match self.instance_states.get(&instance_id.0) {
                        Some(s) => s.clone(),
                        None => String::from_str("initial"),
                    };
                    let payload = EventPayload::Workflow(WorkflowPayload::StateTransitioned {
                        instance_id,
                        from_state,
                        to_state: String::from_str("next"),
                    });
                    new_event(aggregate_id, correlation_id, payload)
                },
            },
            _ => invalid("Not a Workflow command"),
        }
    }
}

/// The answer of the concept handler: a concept may be defined once;
/// properties need their concept, relations both concepts.
pub open spec fn concept_answer<P: GraphProjection>(command: GraphCommand, projection: P, r: Result<Vec<GraphEvent>>) -> bool {
    match command {
        GraphCommand::Concept { aggregate_id, correlation_id, command } => match command {
            ConceptCommand::DefineConcept { concept_id, name, definition } =>
                if projection.spec_has_node(concept_id@) {
                    rejects(r, Rejection::Duplicate(concept_id@))
                } else {
                    emits(r, aggregate_id, correlation_id,
                        EventPayload::Concept(ConceptPayload::ConceptDefined { concept_id, name, definition }))
                },
            ConceptCommand::AddProperties { concept_id, properties } =>
                if !projection.spec_has_node(concept_id@) {
                    rejects(r, Rejection::Missing(concept_id@))
                } else {
                    emits(r, aggregate_id, correlation_id,
                        EventPayload::Concept(ConceptPayload::PropertiesAdded { concept_id, properties }))
                },
            ConceptCommand::AddRelation { source_concept, target_concept, relation_type, strength } =>
                if !projection.spec_has_node(source_concept@) {
                    rejects(r, Rejection::Missing(source_concept@))
                } else if !projection.spec_has_node(target_concept@) {
                    rejects(r, Rejection::Missing(target_concept@))
                } else {
                    emits(r, aggregate_id, correlation_id, EventPayload::Concept(
                        ConceptPayload::RelationAdded { source_concept, target_concept, relation_type, strength }))
                },
        },
        _ => rejects(r, Rejection::Invalid("Not a Concept command"@)),
    }
}

/// Handles concept (semantic reasoning) commands.
#[derive(Debug)]
pub struct ConceptCommandHandler;

impl<P: GraphProjection> CommandHandler<P> for ConceptCommandHandler {
    fn handle(&self, command: GraphCommand, projection: &P) -> (r: Result<Vec<GraphEvent>>)
        ensures
            concept_answer(command, *projection, r),
    {
        match command {
            GraphCommand::Concept { aggregate_id, correlation_id, command } => match command {
                ConceptCommand::DefineConcept { concept_id, name, definition } => {
                    if projection.get_node(concept_id.as_str()).is_some() {
                        return Err(GraphError::DuplicateNode(concept_id));
                    }
                    new_event(aggregate_id, correlation_id,
                        EventPayload::Concept(ConceptPayload::ConceptDefined { concept_id, name, definition }))
                },
                ConceptCommand::AddProperties { concept_id, properties } => {
                    if projection.get_node(concept_id.as_str()).is_none() {
                        return Err(GraphError::NodeNotFound(concept_id));
                    }
                    new_event(aggregate_id, correlation_id,
                        EventPayload::Concept(ConceptPayload::PropertiesAdded { concept_id, properties }))
                },
                ConceptCommand::AddRelation { source_concept, target_concept, relation_type, strength } => {
                    if projection.get_node(source_concept.as_str()).is_none() {
                        return Err(GraphError::NodeNotFound(source_concept));
                    }
                    if projection.get_node(target_concept.as_str()).is_none() {
                        return Err(GraphError::NodeNotFound(target_concept));
                    }
                    new_event(aggregate_id, correlation_id, EventPayload::Concept(
                        ConceptPayload::RelationAdded { source_concept, target_concept, relation_type, strength }))
                },
            },
            _ => invalid("Not a Concept command"),
        }
    }
}

/// The answer of the composed-graph handler: every composed command is valid.
pub open spec fn composed_answer(command: GraphCommand, r: Result<Vec<GraphEvent>>) -> bool {
    match command {
        GraphCommand::Composed { aggregate_id, correlation_id, command } => match command {
            ComposedCommand::AddSubGraph { subgraph_id, graph_type, namespace } =>
                emits(r, aggregate_id, correlation_id,
                    EventPayload::Composed(ComposedPayload::SubGraphAdded { subgraph_id, graph_type, namespace })),
            ComposedCommand::LinkAcrossGraphs { source_graph, source_node, target_graph, target_node } =>
                emits(r, aggregate_id, correlation_id, EventPayload::Composed(
                    ComposedPayload::CrossGraphLinkCreated { source_graph, source_node, target_graph, target_node })),
        },
        _ => rejects(r, Rejection::Invalid("Not a Composed command"@)),
    }
}

/// Handles composed-graph commands.
#[derive(Debug)]
pub struct ComposedCommandHandler;

impl<P: GraphProjection> CommandHandler<P> for ComposedCommandHandler {
    fn handle(&self, command: GraphCommand, _projection: &P) -> (r: Result<Vec<GraphEvent>>)
        ensures
            composed_answer(command, r),
    {
        match command {
            GraphCommand::Composed { aggregate_id, correlation_id, command } => match command {
                ComposedCommand::AddSubGraph { subgraph_id, graph_type, namespace } =>
                    new_event(aggregate_id, correlation_id,
                        EventPayload::Composed(ComposedPayload::SubGraphAdded { subgraph_id, graph_type, namespace })),
                ComposedCommand::LinkAcrossGraphs { source_graph, source_node, target_graph, target_node } =>
                    new_event(aggregate_id, correlation_id, EventPayload::Composed(
                        ComposedPayload::CrossGraphLinkCreated { source_graph, source_node, target_graph, target_node })),
            },
            _ => invalid("Not a Composed command"),
        }
    }
}

} // verus!
