//! The state machine of graph aggregates.
//!
//! Commands are validated against an aggregate's lifecycle state; events
//! move aggregates between states. All transitions go through here.

use vstd::prelude::*;
use vstd::string::*;
use std::collections::HashMap;
use crate::error::GraphError;
use crate::events::{
    GraphEvent, GraphCommand, EventPayload, GenericPayload, IpldPayload, ContextPayload, WorkflowPayload,
    ConceptPayload, ComposedPayload, IpldCommand, ContextCommand, WorkflowCommand, ConceptCommand, ComposedCommand,
};
use crate::graph_core::aggregate_projection::GraphAggregateProjection;
use crate::ids::{Uuid, Timestamp, uuid_text};
use crate::json::{JsonValue, JsonView, json_view, json_get, str_eq};

verus! {

broadcast use vstd::std_specs::hash::group_hash_axioms;

/// Lifecycle states of a graph aggregate.
#[derive(Debug, PartialEq, Eq, Hash)]
pub enum GraphState {
    /// The graph does not exist yet
    Uninitialized,
    /// The graph has been initialized with a type
    Initialized {
        /// Type of graph
        graph_type: String,
    },
    /// The graph has nodes and edges
    Active {
        /// Number of nodes
        nodes: usize,
        /// Number of edges
        edges: usize,
    },
    /// The graph has been archived
    Archived,
}

impl Clone for GraphState {
    fn clone(&self) -> (res: Self)
        ensures
            res == *self,
    {
        match self {
            GraphState::Uninitialized => GraphState::Uninitialized,
            GraphState::Initialized { graph_type } => GraphState::Initialized { graph_type: graph_type.clone() },
            GraphState::Active { nodes, edges } => GraphState::Active { nodes: *nodes, edges: *edges },
            GraphState::Archived => GraphState::Archived,
        }
    }
}

/// The content of a lifecycle state.
pub enum GraphStateView {
    Uninitialized,
    Initialized { graph_type: Seq<char> },
    Active { nodes: usize, edges: usize },
    Archived,
}

impl View for GraphState {
    type V = GraphStateView;

    open spec fn view(&self) -> GraphStateView {
        match *self {
            GraphState::Uninitialized => GraphStateView::Uninitialized,
            GraphState::Initialized { graph_type } => GraphStateView::Initialized { graph_type: graph_type@ },
            GraphState::Active { nodes, edges } => GraphStateView::Active { nodes, edges },
            GraphState::Archived => GraphStateView::Archived,
        }
    }
}

/// The aggregate a command addresses.
pub open spec fn command_aggregate(c: GraphCommand) -> Uuid {
    match c {
        GraphCommand::InitializeGraph { aggregate_id, .. } => aggregate_id,
        GraphCommand::ArchiveGraph { aggregate_id, .. } => aggregate_id,
        GraphCommand::Generic { aggregate_id, .. } => aggregate_id,
        GraphCommand::Ipld { aggregate_id, .. } => aggregate_id,
        GraphCommand::Context { aggregate_id, .. } => aggregate_id,
        GraphCommand::Workflow { aggregate_id, .. } => aggregate_id,
        GraphCommand::Concept { aggregate_id, .. } => aggregate_id,
        GraphCommand::Composed { aggregate_id, .. } => aggregate_id,
    }
}

/// The aggregate a command addresses.
pub fn command_aggregate_id(c: &GraphCommand) -> (id: Uuid)
    ensures
        id == command_aggregate(*c),
{
    match c {
        GraphCommand::InitializeGraph { aggregate_id, .. } => *aggregate_id,
        GraphCommand::ArchiveGraph { aggregate_id, .. } => *aggregate_id,
        GraphCommand::Generic { aggregate_id, .. } => *aggregate_id,
        GraphCommand::Ipld { aggregate_id, .. } => *aggregate_id,
        GraphCommand::Context { aggregate_id, .. } => *aggregate_id,
        GraphCommand::Workflow { aggregate_id, .. } => *aggregate_id,
        GraphCommand::Concept { aggregate_id, .. } => *aggregate_id,
        GraphCommand::Composed { aggregate_id, .. } => *aggregate_id,
    }
}

/// Why a command is refused in a state, or `None` when it is allowed.
pub open spec fn validation_error(state: GraphStateView, command: GraphCommand) -> Option<Seq<char>> {
    match state {
        GraphStateView::Uninitialized => match command {
            GraphCommand::InitializeGraph { .. } => None,
            _ => Some("Graph must be initialized first"@),
        },
        GraphStateView::Initialized { .. } => match command {
            GraphCommand::Generic { command, .. } =>
                if command@ == "AddNode"@ { None } else { Some("Graph must have nodes before other operations"@) },
            GraphCommand::Ipld { command, .. } =>
                if command is AddCid { None } else { Some("Must add CIDs before creating links"@) },
            GraphCommand::Context { command, .. } =>
                if command is CreateBoundedContext { None } else { Some("Must create bounded context first"@) },
            GraphCommand::Workflow { command, .. } =>
                if command is DefineWorkflow { None } else { Some("Must define workflow first"@) },
            GraphCommand::Concept { command, .. } =>
                if command is DefineConcept { None } else { Some("Must define concept first"@) },
            GraphCommand::Composed { command, .. } =>
                if command is AddSubGraph { None } else { Some("Must add subgraph first"@) },
            _ => None,
        },
        GraphStateView::Active { .. } => match command {
            GraphCommand::InitializeGraph { .. } => Some("Graph already initialized"@),
            _ => None,
        },
        GraphStateView::Archived => Some("Cannot modify archived graph"@),
    }
}

/// The graph type named by the data of an initialization event: its
/// `graph_type` member when that is a string, else "generic".
pub open spec fn initialized_type(data: JsonValue) -> Seq<char> {
    match json_get(data, "graph_type"@) {
        Some(JsonValue::String(s)) => s@,
        _ => "generic"@,
    }
}

/// The state an aggregate moves to when an event with this payload is applied.
pub open spec fn next_state(state: GraphStateView, payload: EventPayload) -> GraphStateView {
    match payload {
        EventPayload::Generic(g) => {
            if g.event_type@ == "GraphInitialized"@ {
                GraphStateView::Initialized { graph_type: initialized_type(g.data) }
            } else if g.event_type@ == "GraphArchived"@ {
                GraphStateView::Archived
            } else if state is Initialized && g.event_type@ == "NodeAdded"@ {
                GraphStateView::Active { nodes: 1, edges: 0 }
            } else if state is Active {
                let nodes = state->Active_nodes;
                let edges = state->Active_edges;
                if g.event_type@ == "NodeAdded"@ {
                    GraphStateView::Active { nodes: (nodes + 1) as usize, edges }
                } else if g.event_type@ == "NodeRemoved"@ && nodes > 1 {
                    GraphStateView::Active { nodes: (nodes - 1) as usize, edges }
                } else if g.event_type@ == "EdgeAdded"@ {
                    GraphStateView::Active { nodes, edges: (edges + 1) as usize }
                } else if g.event_type@ == "EdgeRemoved"@ && edges > 0 {
                    GraphStateView::Active { nodes, edges: (edges - 1) as usize }
                } else {
                    state
                }
            } else {
                state
            }
        },
        EventPayload::Ipld(IpldPayload::CidAdded { .. }) =>
            if state is Uninitialized { GraphStateView::Initialized { graph_type: "ipld"@ } } else { state },
        EventPayload::Context(ContextPayload::BoundedContextCreated { .. }) =>
            if state is Uninitialized { GraphStateView::Initialized { graph_type: "context"@ } } else { state },
        EventPayload::Workflow(WorkflowPayload::WorkflowDefined { .. }) =>
            if state is Uninitialized { GraphStateView::Initialized { graph_type: "workflow"@ } } else { state },
        EventPayload::Concept(ConceptPayload::ConceptDefined { .. }) =>
            if state is Uninitialized { GraphStateView::Initialized { graph_type: "concept"@ } } else { state },
        EventPayload::Composed(ComposedPayload::SubGraphAdded { .. }) =>
            if state is Uninitialized { GraphStateView::Initialized { graph_type: "composed"@ } } else { state },
        _ => state,
    }
}

/// Applying the payload in this state does not overflow a node or edge count.
pub open spec fn counts_fit(state: GraphStateView, payload: EventPayload) -> bool {
    match payload {
        EventPayload::Generic(g) => state is Active && g.event_type@ != "GraphInitialized"@ ==> {
            &&& g.event_type@ == "NodeAdded"@ ==> state->Active_nodes < usize::MAX
            &&& g.event_type@ == "EdgeAdded"@ ==> state->Active_edges < usize::MAX
        },
        _ => true,
    }
}

/// The state of every aggregate after replaying events from no state at all.
pub open spec fn replay_states(events: Seq<GraphEvent>) -> Map<u128, GraphStateView>
    decreases events.len(),
{
    if events.len() == 0 {
        Map::empty()
    } else {
        let before = replay_states(events.drop_last());
        let e = events.last();
        let current = if before.contains_key(e.aggregate_id.0) { before[e.aggregate_id.0] } else { GraphStateView::Uninitialized };
        before.insert(e.aggregate_id.0, next_state(current, e.payload))
    }
}

/// Replaying the events never overflows a count.
pub open spec fn replay_fits(events: Seq<GraphEvent>) -> bool
    decreases events.len(),
{
    if events.len() == 0 {
        true
    } else {
        let before = replay_states(events.drop_last());
        let e = events.last();
        let current = if before.contains_key(e.aggregate_id.0) { before[e.aggregate_id.0] } else { GraphStateView::Uninitialized };
        replay_fits(events.drop_last()) && counts_fit(current, e.payload)
    }
}

/// The state machine of graph aggregates.
#[derive(Debug)]
pub struct GraphStateMachine {
    /// Valid states for each graph type
    pub valid_states: Vec<(String, Vec<String>)>,
    /// Valid transitions: (graph type, from state, to state) with whether allowed
    pub valid_transitions: Vec<((String, String, String), bool)>,
    /// Current state of each aggregate, by its id
    pub aggregate_states: HashMap<u128, GraphState>,
}

/// The states an aggregate map holds.
pub open spec fn states_view(m: Map<u128, GraphState>) -> Map<u128, GraphStateView> {
    m.map_values(|s: GraphState| s@)
}

impl GraphStateMachine {
    /// The state of an aggregate; one the machine has not seen is uninitialized.
    pub open spec fn state_of(&self, id: Uuid) -> GraphStateView {
        if self.aggregate_states@.contains_key(id.0) { self.aggregate_states@[id.0]@ } else { GraphStateView::Uninitialized }
    }

    /// The states of all aggregates the machine has seen.
    pub open spec fn states(&self) -> Map<u128, GraphStateView> {
        states_view(self.aggregate_states@)
    }
}

/// The graph-type table that a new machine holds.
pub open spec fn default_valid_states() -> Seq<(Seq<char>, Seq<Seq<char>>)> {
    seq![
        ("workflow"@, seq!["draft"@, "published"@, "executing"@, "completed"@, "failed"@]),
        ("ipld"@, seq!["immutable"@]),
        ("context"@, seq!["defining"@, "bounded"@, "integrated"@]),
        ("concept"@, seq!["learning"@, "reasoning"@, "inferring"@]),
        ("composed"@, seq!["composing"@, "linked"@, "synchronized"@]),
    ]
}

/// The transition table that a new machine holds: each allowed.
pub open spec fn default_valid_transitions() -> Seq<(Seq<char>, Seq<char>, Seq<char>)> {
    seq![
        ("workflow"@, "draft"@, "published"@),
        ("workflow"@, "published"@, "executing"@),
        ("workflow"@, "executing"@, "completed"@),
        ("workflow"@, "executing"@, "failed"@),
        ("workflow"@, "failed"@, "executing"@),
    ]
}

/// The content of a list of texts.
pub open spec fn texts_view(v: Vec<String>) -> Seq<Seq<char>> {
    v@.map_values(|s: String| s@)
}

/// The payload that initializing a graph of the given type produces
/// (the sub-graph id of a composed graph is fresh and not fixed here).
pub open spec fn init_payload(p: EventPayload, graph_type: Seq<char>, id: Uuid) -> bool {
    if graph_type == "ipld"@ {
        &&& p matches EventPayload::Ipld(IpldPayload::CidAdded { cid, codec, size, data })
        &&& cid@ == "Qm"@ + uuid_text(id.0).take(16)
        &&& codec@ == "dag-cbor"@
        &&& size == 0
        &&& json_view(data) == JsonView::Object(seq![("initialized"@, JsonView::Bool(true)), ("type"@, JsonView::Str("ipld_graph"@))])
    } else if graph_type == "workflow"@ {
        &&& p matches EventPayload::Workflow(WorkflowPayload::WorkflowDefined { workflow_id, name, version })
        &&& workflow_id == id && name@ == "New Workflow"@ && version@ == "1.0.0"@
    } else if graph_type == "context"@ {
        &&& p matches EventPayload::Context(ContextPayload::BoundedContextCreated { context_id, name, description })
        &&& context_id@ == uuid_text(id.0) && name@ == "NewContext"@ && description@ == "A new bounded context"@
    } else if graph_type == "concept"@ {
        &&& p matches EventPayload::Concept(ConceptPayload::ConceptDefined { concept_id, name, definition })
        &&& concept_id@ == "concept_1"@ && name@ == "NewConcept"@ && definition@ == "A new concept"@
    } else if graph_type == "composed"@ {
        &&& p matches EventPayload::Composed(ComposedPayload::SubGraphAdded { subgraph_id, graph_type, namespace })
        &&& graph_type@ == "generic"@ && namespace@ == "default"@
    } else {
        &&& p matches EventPayload::Generic(g)
        &&& g.event_type@ == "GraphInitialized"@
        &&& json_view(g.data) == JsonView::Object(seq![("aggregate_id"@, JsonView::Str(uuid_text(id.0))), ("graph_type"@, JsonView::Str(graph_type))])
    }
}

/// The payload that archiving a graph produces (the time of archiving is the clock's).
pub open spec fn archive_payload(p: EventPayload, id: Uuid) -> bool {
    &&& p matches EventPayload::Generic(g)
    &&& g.event_type@ == "GraphArchived"@
    &&& exists|t: Seq<char>| json_view(g.data) == JsonView::Object(seq![("aggregate_id"@, JsonView::Str(uuid_text(id.0))), ("archived_at"@, JsonView::Str(t))])
}

/// A new event of `command`'s aggregate and correlation, caused by nothing.
pub open spec fn fresh_event_of(e: GraphEvent, id: Uuid, correlation: Uuid) -> bool {
    e.aggregate_id == id && e.correlation_id == correlation && e.causation_id is None
}

impl GraphStateMachine {
    /// A machine with the predefined state and transition tables and no aggregates.
    pub fn new() -> (sm: Self)
        ensures
            sm.valid_states@.map_values(|e: (String, Vec<String>)| (e.0@, texts_view(e.1))) == default_valid_states(),
            sm.valid_transitions@.map_values(|e: ((String, String, String), bool)| (e.0.0@, e.0.1@, e.0.2@))
                == default_valid_transitions(),
            forall|i: int| 0 <= i < sm.valid_transitions@.len() ==> (#[trigger] sm.valid_transitions@[i]).1,
            sm.aggregate_states@ == Map::<u128, GraphState>::empty(),
    {
        let workflow = vec![String::from_str("draft"), String::from_str("published"), String::from_str("executing"),
            String::from_str("completed"), String::from_str("failed")];
        let ipld = vec![String::from_str("immutable")];
        let context = vec![String::from_str("defining"), String::from_str("bounded"), String::from_str("integrated")];
        let concept = vec![String::from_str("learning"), String::from_str("reasoning"), String::from_str("inferring")];
        let composed = vec![String::from_str("composing"), String::from_str("linked"), String::from_str("synchronized")];
        assert(texts_view(workflow) =~= seq!["draft"@, "published"@, "executing"@, "completed"@, "failed"@]);
        assert(texts_view(ipld) =~= seq!["immutable"@]);
        assert(texts_view(context) =~= seq!["defining"@, "bounded"@, "integrated"@]);
        assert(texts_view(concept) =~= seq!["learning"@, "reasoning"@, "inferring"@]);
        assert(texts_view(composed) =~= seq!["composing"@, "linked"@, "synchronized"@]);
        let valid_states = vec![
            (String::from_str("workflow"), workflow),
            (String::from_str("ipld"), ipld),
            (String::from_str("context"), context),
            (String::from_str("concept"), concept),
            (String::from_str("composed"), composed),
        ];
        let valid_transitions = vec![
            ((String::from_str("workflow"), String::from_str("draft"), String::from_str("published")), true),
            ((String::from_str("workflow"), String::from_str("published"), String::from_str("executing")), true),
            ((String::from_str("workflow"), String::from_str("executing"), String::from_str("completed")), true),
            ((String::from_str("workflow"), String::from_str("executing"), String::from_str("failed")), true),
            ((String::from_str("workflow"), String::from_str("failed"), String::from_str("executing")), true),
        ];
        let sm = GraphStateMachine { valid_states, valid_transitions, aggregate_states: HashMap::new() };
        assert(sm.valid_states@.map_values(|e: (String, Vec<String>)| (e.0@, texts_view(e.1))) =~= default_valid_states());
        assert(sm.valid_transitions@.map_values(|e: ((String, String, String), bool)| (e.0.0@, e.0.1@, e.0.2@))
            =~= default_valid_transitions());
        sm
    }

    /// The current state of an aggregate; one the machine has not seen is uninitialized.
    pub fn get_state(&self, aggregate_id: &Uuid) -> (s: GraphState)
        ensures
            s@ == self.state_of(*aggregate_id),
    {
        match self.aggregate_states.get(&aggregate_id.0) {
            Some(s) => s.clone(),
            None => GraphState::Uninitialized,
        }
    }

    /// Checks that a command may run in its aggregate's current state. The
    /// projection is not consulted.
    pub fn validate_command(&self, command: &GraphCommand, _projection: &GraphAggregateProjection) -> (r: Result<(), GraphError>)
        ensures
            match r {
                Ok(()) => validation_error(self.state_of(command_aggregate(*command)), *command) is None,
                Err(e) => validation_error(self.state_of(command_aggregate(*command)), *command) matches Some(m)
                    && e matches GraphError::InvalidOperation(s) && s@ == m,
            },
    {
        let aggregate_id = command_aggregate_id(command);
        let current = self.get_state(&aggregate_id);
        match current {
            GraphState::Uninitialized => match command {
                GraphCommand::InitializeGraph { .. } => Ok(()),
                _ => Err(GraphError::InvalidOperation(String::from_str("Graph must be initialized first"))),
            },
            GraphState::Initialized { .. } => match command {
                GraphCommand::Generic { command, .. } => {
                    if str_eq(command.as_str(), "AddNode") {
                        Ok(())
                    } else {
                        Err(GraphError::InvalidOperation(String::from_str("Graph must have nodes before other operations")))
                    }
                },
                GraphCommand::Ipld { command, .. } => match command {
                    IpldCommand::AddCid { .. } => Ok(()),
                    _ => Err(GraphError::InvalidOperation(String::from_str("Must add CIDs before creating links"))),
                },
                GraphCommand::Context { command, .. } => match command {
                    ContextCommand::CreateBoundedContext { .. } => Ok(()),
                    _ => Err(GraphError::InvalidOperation(String::from_str("Must create bounded context first"))),
                },
                GraphCommand::Workflow { command, .. } => match command {
                    WorkflowCommand::DefineWorkflow { .. } => Ok(()),
                    _ => Err(GraphError::InvalidOperation(String::from_str("Must define workflow first"))),
                },
                GraphCommand::Concept { command, .. } => match command {
                    ConceptCommand::DefineConcept { .. } => Ok(()),
                    _ => Err(GraphError::InvalidOperation(String::from_str("Must define concept first"))),
                },
                GraphCommand::Composed { command, .. } => match command {
                    ComposedCommand::AddSubGraph { .. } => Ok(()),
                    _ => Err(GraphError::InvalidOperation(String::from_str("Must add subgraph first"))),
                },
                _ => Ok(()),
            },
            GraphState::Active { .. } => match command {
                GraphCommand::InitializeGraph { .. } => Err(GraphError::InvalidOperation(String::from_str("Graph already initialized"))),
                _ => Ok(()),
            },
            GraphState::Archived => Err(GraphError::InvalidOperation(String::from_str("Cannot modify archived graph"))),
        }
    }

    /// Moves an event's aggregate to the state the event leads to.
    pub fn apply_event(&mut self, event: &GraphEvent)
        requires
            counts_fit(old(self).state_of(event.aggregate_id), event.payload),
        ensures
            final(self).states() == old(self).states().insert(event.aggregate_id.0,
                next_state(old(self).state_of(event.aggregate_id), event.payload)),
            final(self).valid_states == old(self).valid_states,
            final(self).valid_transitions == old(self).valid_transitions,
    {
        let aggregate_id = event.aggregate_id;
        let current = self.get_state(&aggregate_id);
        let new_state = next_state_of(current, &event.payload);
        self.aggregate_states.insert(aggregate_id.0, new_state);
        assert(self.states() =~= old(self).states().insert(event.aggregate_id.0,
            next_state(old(self).state_of(event.aggregate_id), event.payload)));
    }

    /// Validates a command and produces its events, applying them to the
    /// machine. Initializing yields one event that depends on the graph type,
    /// archiving yields one event; other commands yield none.
    pub fn handle_command(&mut self, command: GraphCommand, projection: &GraphAggregateProjection)
        -> (r: Result<Vec<GraphEvent>, GraphError>)
        ensures
            final(self).valid_states == old(self).valid_states,
            final(self).valid_transitions == old(self).valid_transitions,
            match r {
                Err(e) => {
                    &&& validation_error(old(self).state_of(command_aggregate(command)), command) matches Some(m)
                    &&& e matches GraphError::InvalidOperation(s) && s@ == m
                    &&& final(self).states() == old(self).states()
                },
                Ok(events) => {
                    &&& validation_error(old(self).state_of(command_aggregate(command)), command) is None
                    &&& match command {
                        GraphCommand::InitializeGraph { aggregate_id, graph_type, correlation_id } => {
                            &&& events@.len() == 1
                            &&& fresh_event_of(events@[0], aggregate_id, correlation_id)
                            &&& init_payload(events@[0].payload, graph_type@, aggregate_id)
                            &&& final(self).states() == old(self).states().insert(aggregate_id.0,
                                    next_state(old(self).state_of(aggregate_id), events@[0].payload))
                        },
                        GraphCommand::ArchiveGraph { aggregate_id, correlation_id } => {
                            &&& events@.len() == 1
                            &&& fresh_event_of(events@[0], aggregate_id, correlation_id)
                            &&& archive_payload(events@[0].payload, aggregate_id)
                            &&& final(self).states() == old(self).states().insert(aggregate_id.0,
                                    next_state(old(self).state_of(aggregate_id), events@[0].payload))
                        },
                        _ => events@.len() == 0 && final(self).states() == old(self).states(),
                    }
                },
            },
    {
        match self.validate_command(&command, projection) {
            Err(e) => return Err(e),
            Ok(()) => {},
        }
        let mut events: Vec<GraphEvent> = Vec::new();
        match command {
            GraphCommand::InitializeGraph { aggregate_id, graph_type, correlation_id } => {
                let payload = initialization_payload(&graph_type, aggregate_id);
                let event = GraphEvent {
                    event_id: Uuid::new_v4(),
                    aggregate_id,
                    correlation_id,
                    causation_id: None,
                    payload,
                };
                self.apply_event(&event);
                events.push(event);
            },
            GraphCommand::ArchiveGraph { aggregate_id, correlation_id } => {
                let archived_at = Timestamp::now().to_rfc3339();
                let data = JsonValue::object(vec![
                    (String::from_str("aggregate_id"), JsonValue::String(aggregate_id.to_string())),
                    (String::from_str("archived_at"), JsonValue::String(archived_at)),
                ]);
                let event = GraphEvent {
                    event_id: Uuid::new_v4(),
                    aggregate_id,
                    correlation_id,
                    causation_id: None,
                    payload: EventPayload::Generic(GenericPayload { event_type: String::from_str("GraphArchived"), data }),
                };
                proof {
                    reveal_strlit("GraphArchived");
                    reveal_strlit("NodeAdded");
                    reveal_strlit("EdgeAdded");
                    let g = event.payload->Generic_0;
                    assert(json_view(g.data)->Object_0 =~= seq![("aggregate_id"@, JsonView::Str(uuid_text(aggregate_id.0))),
                        ("archived_at"@, JsonView::Str(json_view(g.data)->Object_0[1].1->Str_0))]);
                    assert(g.event_type@ == "GraphArchived"@);
                    assert(g.event_type@ != "NodeAdded"@);
                    assert(g.event_type@ != "EdgeAdded"@);
                    assert(counts_fit(self.state_of(aggregate_id), event.payload));
                }
                self.apply_event(&event);
                events.push(event);
            },
            _ => {},
        }
        Ok(events)
    }

    /// Forgets every aggregate's state, then applies the events in order.
    pub fn replay_events(&mut self, events: &[GraphEvent])
        requires
            replay_fits(events@),
        ensures
            final(self).states() == replay_states(events@),
            final(self).valid_states == old(self).valid_states,
            final(self).valid_transitions == old(self).valid_transitions,
    {
        self.aggregate_states.clear();
        assert(self.states() =~= replay_states(events@.take(0)));
        let mut i: usize = 0;
        while i < events.len()
            invariant
                i <= events@.len(),
                replay_fits(events@),
                self.states() == replay_states(events@.take(i as int)),
                self.valid_states == old(self).valid_states,
                self.valid_transitions == old(self).valid_transitions,
            decreases events@.len() - i,
        {
            proof {
                assert(events@.take(i + 1).drop_last() =~= events@.take(i as int));
                lemma_replay_fits_prefix(events@, i as int + 1);
                assert(self.aggregate_states@.contains_key(events@[i as int].aggregate_id.0)
                    == self.states().contains_key(events@[i as int].aggregate_id.0));
            }
            self.apply_event(&events[i]);
            i = i + 1;
        }
        assert(events@.take(events@.len() as int) =~= events@);
    }
}

/// A prefix of a replay that fits also fits.
proof fn lemma_replay_fits_prefix(events: Seq<GraphEvent>, n: int)
    requires
        replay_fits(events),
        0 <= n <= events.len(),
    ensures
        replay_fits(events.take(n)),
    decreases events.len(),
{
    if n < events.len() {
        assert(events.drop_last().take(n) =~= events.take(n));
        lemma_replay_fits_prefix(events.drop_last(), n);
    } else {
        assert(events.take(n) =~= events);
    }
}

/// The state that applying a payload in `current` leads to.
fn next_state_of(current: GraphState, payload: &EventPayload) -> (s: GraphState)
    requires
        counts_fit(current@, *payload),
    ensures
        s@ == next_state(current@, *payload),
{
    match payload {
        EventPayload::Generic(g) => {
            if str_eq(g.event_type.as_str(), "GraphInitialized") {
                let graph_type = match g.data.get("graph_type") {
                    Some(v) => match v.as_str() {
                        Some(t) => String::from_str(t),
                        None => String::from_str("generic"),
                    },
                    None => String::from_str("generic"),
                };
                GraphState::Initialized { graph_type }
            } else if str_eq(g.event_type.as_str(), "GraphArchived") {
                GraphState::Archived
            } else {
                match current {
                    GraphState::Initialized { .. } if str_eq(g.event_type.as_str(), "NodeAdded") =>
                        GraphState::Active { nodes: 1, edges: 0 },
                    GraphState::Active { nodes, edges } => {
                        if str_eq(g.event_type.as_str(), "NodeAdded") {
                            GraphState::Active { nodes: nodes + 1, edges }
                        } else if str_eq(g.event_type.as_str(), "NodeRemoved") && nodes > 1 {
                            GraphState::Active { nodes: nodes - 1, edges }
                        } else if str_eq(g.event_type.as_str(), "EdgeAdded") {
                            GraphState::Active { nodes, edges: edges + 1 }
                        } else if str_eq(g.event_type.as_str(), "EdgeRemoved") && edges > 0 {
                            GraphState::Active { nodes, edges: edges - 1 }
                        } else {
                            GraphState::Active { nodes, edges }
                        }
                    },
                    other => other,
                }
            }
        },
        EventPayload::Ipld(IpldPayload::CidAdded { .. }) => match current {
            GraphState::Uninitialized => GraphState::Initialized { graph_type: String::from_str("ipld") },
            other => other,
        },
        EventPayload::Context(ContextPayload::BoundedContextCreated { .. }) => match current {
            GraphState::Uninitialized => GraphState::Initialized { graph_type: String::from_str("context") },
            other => other,
        },
        EventPayload::Workflow(WorkflowPayload::WorkflowDefined { .. }) => match current {
            GraphState::Uninitialized => GraphState::Initialized { graph_type: String::from_str("workflow") },
            other => other,
        },
        EventPayload::Concept(ConceptPayload::ConceptDefined { .. }) => match current {
            GraphState::Uninitialized => GraphState::Initialized { graph_type: String::from_str("concept") },
            other => other,
        },
        EventPayload::Composed(ComposedPayload::SubGraphAdded { .. }) => match current {
            GraphState::Uninitialized => GraphState::Initialized { graph_type: String::from_str("composed") },
            other => other,
        },
        _ => current,
    }
}

/// The payload that initializing a graph of the given type produces.
fn initialization_payload(graph_type: &String, aggregate_id: Uuid) -> (p: EventPayload)
    ensures
        init_payload(p, graph_type@, aggregate_id),
{
    if str_eq(graph_type.as_str(), "ipld") {
        let data = JsonValue::object(vec![
            (String::from_str("initialized"), JsonValue::Bool(true)),
            (String::from_str("type"), JsonValue::from_str("ipld_graph")),
        ]);
        proof {
            assert(json_view(data)->Object_0 =~= seq![("initialized"@, JsonView::Bool(true)), ("type"@, JsonView::Str("ipld_graph"@))]);
        }
        EventPayload::Ipld(IpldPayload::CidAdded {
            cid: crate::events::graph_events::initial_cid(aggregate_id),
            codec: String::from_str("dag-cbor"),
            size: 0,
            data,
        })
    } else if str_eq(graph_type.as_str(), "workflow") {
        EventPayload::Workflow(WorkflowPayload::WorkflowDefined {
            workflow_id: aggregate_id,
            name: String::from_str("New Workflow"),
            version: String::from_str("1.0.0"),
        })
    } else if str_eq(graph_type.as_str(), "context") {
        EventPayload::Context(ContextPayload::BoundedContextCreated {
            context_id: aggregate_id.to_string(),
            name: String::from_str("NewContext"),
            description: String::from_str("A new bounded context"),
        })
    } else if str_eq(graph_type.as_str(), "concept") {
        EventPayload::Concept(ConceptPayload::ConceptDefined {
            concept_id: String::from_str("concept_1"),
            name: String::from_str("NewConcept"),
            definition: String::from_str("A new concept"),
        })
    } else if str_eq(graph_type.as_str(), "composed") {
        EventPayload::Composed(ComposedPayload::SubGraphAdded {
            subgraph_id: Uuid::new_v4(),
            graph_type: String::from_str("generic"),
            namespace: String::from_str("default"),
        })
    } else {
        let data = JsonValue::object(vec![
            (String::from_str("aggregate_id"), JsonValue::String(aggregate_id.to_string())),
            (String::from_str("graph_type"), JsonValue::String(graph_type.clone())),
        ]);
        proof {
            assert(json_view(data)->Object_0 =~= seq![("aggregate_id"@, JsonView::Str(uuid_text(aggregate_id.0))), ("graph_type"@, JsonView::Str(graph_type@))]);
        }
        EventPayload::Generic(GenericPayload { event_type: String::from_str("GraphInitialized"), data })
    }
}

/// Lifecycle of a workflow.
#[derive(Debug, PartialEq, Eq, Hash)]
pub enum WorkflowState {
    /// Being designed
    Draft,
    /// Published and ready to run
    Published,
    /// Running
    Running {
        /// Current state of the execution
        current_state: String,
    },
    /// Completed successfully
    Completed,
    /// Failed
    Failed {
        /// What went wrong
        error: String,
    },
}

impl Clone for WorkflowState {
    fn clone(&self) -> (res: Self)
        ensures
            res == *self,
    {
        match self {
            WorkflowState::Draft => WorkflowState::Draft,
            WorkflowState::Published => WorkflowState::Published,
            WorkflowState::Running { current_state } => WorkflowState::Running { current_state: current_state.clone() },
            WorkflowState::Completed => WorkflowState::Completed,
            WorkflowState::Failed { error } => WorkflowState::Failed { error: error.clone() },
        }
    }
}

/// The workflow transitions that are allowed: draft to published, published
/// to running, running to completed or failed, and failed back to running.
pub open spec fn workflow_transition_allowed(from: WorkflowState, to: WorkflowState) -> bool {
    ||| (from is Draft && to is Published)
    ||| (from is Published && to is Running)
    ||| (from is Running && to is Completed)
    ||| (from is Running && to is Failed)
    ||| (from is Failed && to is Running)
}

impl WorkflowState {
    /// Whether a workflow may move from this state to `new_state`.
    pub fn can_transition_to(&self, new_state: &WorkflowState) -> (b: bool)
        ensures
            b == workflow_transition_allowed(*self, *new_state),
    {
        match (self, new_state) {
            (WorkflowState::Draft, WorkflowState::Published) => true,
            (WorkflowState::Published, WorkflowState::Running { .. }) => true,
            (WorkflowState::Running { .. }, WorkflowState::Completed) => true,
            (WorkflowState::Running { .. }, WorkflowState::Failed { .. }) => true,
            (WorkflowState::Failed { .. }, WorkflowState::Running { .. }) => true,
            _ => false,
        }
    }
}

/// Runs a command through the state machine.
pub fn process_command(state_machine: &mut GraphStateMachine, command: GraphCommand, projection: &GraphAggregateProjection)
    -> (r: Result<Vec<GraphEvent>, GraphError>)
    ensures
        r matches Err(e) ==> final(state_machine).states() == old(state_machine).states(),
        (r is Err) == (validation_error(old(state_machine).state_of(command_aggregate(command)), command) is Some),
        match r {
            Ok(events) => match command {
                GraphCommand::InitializeGraph { aggregate_id, graph_type, correlation_id } =>
                    events@.len() == 1 && init_payload(events@[0].payload, graph_type@, aggregate_id)
                    && fresh_event_of(events@[0], aggregate_id, correlation_id)
                    && final(state_machine).states() == old(state_machine).states().insert(aggregate_id.0,
                        next_state(old(state_machine).state_of(aggregate_id), events@[0].payload)),
                GraphCommand::ArchiveGraph { aggregate_id, correlation_id } =>
                    events@.len() == 1 && archive_payload(events@[0].payload, aggregate_id)
                    && fresh_event_of(events@[0], aggregate_id, correlation_id)
                    && final(state_machine).states() == old(state_machine).states().insert(aggregate_id.0,
                        next_state(old(state_machine).state_of(aggregate_id), events@[0].payload)),
                _ => events@.len() == 0 && final(state_machine).states() == old(state_machine).states(),
            },
            Err(e) => validation_error(old(state_machine).state_of(command_aggregate(command)), command) matches Some(m)
                && e matches GraphError::InvalidOperation(s) && s@ == m,
        },
{
    state_machine.handle_command(command, projection)
}

/// The current state of an aggregate.
pub fn get_aggregate_state(state_machine: &GraphStateMachine, aggregate_id: &Uuid) -> (s: GraphState)
    ensures
        s@ == state_machine.state_of(*aggregate_id),
{
    state_machine.get_state(aggregate_id)
}

/// An archiving event moves an aggregate to `Archived` from every state.
pub proof fn law_archived_from_every_state(state: GraphStateView, payload: EventPayload)
    requires
        payload matches EventPayload::Generic(g) && g.event_type@ == "GraphArchived"@,
    ensures
        next_state(state, payload) == GraphStateView::Archived,
{
    reveal_strlit("GraphArchived");
    reveal_strlit("GraphInitialized");
    assert("GraphArchived"@[5] != "GraphInitialized"@[5]);
}

/// Removing an edge from an active aggregate that has one lowers its edge
/// count by one and leaves its node count; removing an edge right after
/// adding one gives back the counts from before.
pub proof fn law_edge_removal_undoes_addition(nodes: usize, edges: usize, added: EventPayload, removed: EventPayload)
    requires
        added matches EventPayload::Generic(g) && g.event_type@ == "EdgeAdded"@,
        removed matches EventPayload::Generic(g) && g.event_type@ == "EdgeRemoved"@,
        edges < usize::MAX,
    ensures
        edges > 0 ==> next_state((GraphStateView::Active { nodes, edges }), removed)
            == (GraphStateView::Active { nodes, edges: (edges - 1) as usize }),
        next_state((GraphStateView::Active { nodes, edges }), added)
            == (GraphStateView::Active { nodes, edges: (edges + 1) as usize }),
        next_state(next_state((GraphStateView::Active { nodes, edges }), added), removed)
            == (GraphStateView::Active { nodes, edges }),
{
    reveal_strlit("GraphArchived");
    reveal_strlit("GraphInitialized");
    reveal_strlit("NodeAdded");
    reveal_strlit("NodeRemoved");
    reveal_strlit("EdgeAdded");
    reveal_strlit("EdgeRemoved");
    assert("EdgeAdded"@[0] != "GraphInitialized"@[0]);
    assert("EdgeAdded"@[0] != "GraphArchived"@[0]);
    assert("EdgeAdded"@[0] != "NodeAdded"@[0]);
    assert("EdgeAdded"@[0] != "NodeRemoved"@[0]);
    assert("EdgeRemoved"@[0] != "GraphInitialized"@[0]);
    assert("EdgeRemoved"@[0] != "GraphArchived"@[0]);
    assert("EdgeRemoved"@[0] != "NodeAdded"@[0]);
    assert("EdgeRemoved"@[0] != "NodeRemoved"@[0]);
    assert("EdgeRemoved"@[4] != "EdgeAdded"@[4]);
}

} // verus!
