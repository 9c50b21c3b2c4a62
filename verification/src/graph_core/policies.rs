//! Policies: automated reactions to events that keep the system's
//! invariants (content ids for every event, projections kept current,
//! validated state transitions and chains, replay for new subscribers).

use vstd::prelude::*;
use vstd::string::*;
use std::collections::HashMap;
use crate::error::{GraphError, Result};
use crate::events::graph_events::{GraphEvent, EventPayload};
use crate::events::payload_json::payload_json;
use crate::graph_core::ipld_chain::{
    IpldChainAggregate, Cid, generate_cid_for_payload, payload_cid, cid_texts, link_map, walk_ends,
    walk_ends_within, verify_answer, chain_walk,
};
use crate::graph_core::state_machine::{GraphStateMachine, GraphState, GraphStateView, counts_fit, next_state};
use crate::ids::Uuid;
use crate::json::{JsonValue, JsonNumber, json_view, json_get, str_eq};
use crate::strmap::StrMap;
use crate::text::{has_substring, text_contains};

verus! {

broadcast use vstd::std_specs::hash::group_hash_axioms;

/// Counts of what the policies did.
#[derive(Debug, Clone, Copy)]
pub struct PolicyMetrics {
    /// Content ids generated
    pub cids_generated: usize,
    /// Projections updated
    pub projections_updated: usize,
    /// Chains validated
    pub chains_validated: usize,
    /// Errors caught and handled
    pub errors_caught: usize,
    /// Event replays requested
    pub events_replayed: usize,
}

/// Metrics with every count at zero.
pub open spec fn zero_metrics() -> PolicyMetrics {
    PolicyMetrics { cids_generated: 0, projections_updated: 0, chains_validated: 0, errors_caught: 0, events_replayed: 0 }
}

impl Default for PolicyMetrics {
    fn default() -> (m: Self)
        ensures
            m == zero_metrics(),
    {
        PolicyMetrics { cids_generated: 0, projections_updated: 0, chains_validated: 0, errors_caught: 0, events_replayed: 0 }
    }
}

/// Whether every count in `b` is its count in `a` or one more.
pub open spec fn counts_step(a: PolicyMetrics, b: PolicyMetrics) -> bool {
    &&& a.cids_generated <= b.cids_generated <= a.cids_generated + 1
    &&& a.projections_updated <= b.projections_updated <= a.projections_updated + 1
    &&& a.chains_validated <= b.chains_validated <= a.chains_validated + 1
    &&& a.errors_caught <= b.errors_caught <= a.errors_caught + 1
    &&& a.events_replayed <= b.events_replayed <= a.events_replayed + 1
}

/// Whether every count is at most `limit`.
pub open spec fn counts_at_most(m: PolicyMetrics, limit: int) -> bool {
    &&& m.cids_generated <= limit
    &&& m.projections_updated <= limit
    &&& m.chains_validated <= limit
    &&& m.errors_caught <= limit
    &&& m.events_replayed <= limit
}

/// What a policy asks for.
#[derive(Debug, Clone)]
pub enum PolicyAction {
    /// A content id was generated for an event
    GenerateCid {
        /// The event
        event_id: Uuid,
        /// Its content id
        cid: Cid,
    },
    /// Update the projection of an aggregate
    UpdateProjection {
        /// The aggregate
        aggregate_id: Uuid,
    },
    /// Validate a state transition
    ValidateTransition {
        /// The aggregate
        aggregate_id: Uuid,
    },
    /// Verify a chain
    VerifyChain {
        /// The aggregate whose chain was verified
        aggregate_id: Uuid,
    },
    /// Invalidate a cached projection
    InvalidateCache {
        /// The aggregate
        aggregate_id: Uuid,
    },
    /// Replay events from a sequence number
    ReplayEvents {
        /// The aggregate
        aggregate_id: Uuid,
        /// First sequence number to replay
        from_sequence: u64,
    },
}

/// What policies work on: the state machine, the chain of each aggregate,
/// and the counts of what they did.
pub struct PolicyContext<'a> {
    /// State machine for validation
    pub state_machine: &'a mut GraphStateMachine,
    /// The chain of each aggregate, by aggregate id
    pub ipld_chains: &'a mut HashMap<u128, IpldChainAggregate>,
    /// Counts of what the policies did
    pub metrics: PolicyMetrics,
}

/// What a context holds, as values: the state machine, the chain of each
/// aggregate, and the counts.
pub struct ContextState {
    /// The state machine
    pub machine: GraphStateMachine,
    /// The chain of each aggregate, by aggregate id
    pub chains: Map<u128, IpldChainAggregate>,
    /// The counts of what the policies did
    pub metrics: PolicyMetrics,
}

/// What a context holds.
pub open spec fn context_state(context: PolicyContext) -> ContextState {
    ContextState { machine: *context.state_machine, chains: (*context.ipld_chains)@, metrics: context.metrics }
}

/// The actions of an answer, as a sequence.
pub open spec fn actions_view(r: Result<Vec<PolicyAction>>) -> Result<Seq<PolicyAction>> {
    match r {
        Ok(v) => Ok(v@),
        Err(e) => Err(e),
    }
}

/// An automated reaction to events.
pub trait Policy {
    /// Whether the policy reacts to an event.
    spec fn triggers(&self, event: GraphEvent) -> bool;

    /// Whether the policy can run on an event in a state (its counts have
    /// room, and what it validates can be walked to the end).
    spec fn ready(&self, event: GraphEvent, state: ContextState) -> bool;

    /// What running the policy on an event does: the state it leaves and
    /// the actions it asks for, or its error.
    spec fn effect(&self, event: GraphEvent, before: ContextState, after: ContextState,
        r: Result<Seq<PolicyAction>>) -> bool;

    /// The name of the policy.
    fn name(&self) -> &str;

    /// Whether the policy reacts to an event.
    fn should_trigger(&self, event: &GraphEvent) -> (b: bool)
        ensures
            b == self.triggers(*event),
    ;

    /// Whether the policy can run on an event in a context.
    fn ready_to_run(&self, event: &GraphEvent, context: &PolicyContext) -> (b: bool)
        ensures
            b == self.ready(*event, context_state(*context)),
    ;

    /// Runs the policy: the actions it asks for. Each count grows by at most one.
    fn execute(&self, event: &GraphEvent, context: &mut PolicyContext) -> (r: Result<Vec<PolicyAction>>)
        requires
            self.ready(*event, context_state(*old(context))),
        ensures
            counts_step(old(context).metrics, final(context).metrics),
            self.effect(*event, context_state(*old(context)), context_state(*final(context)), actions_view(r)),
    ;
}

/// The chain of an aggregate in a state, if it has one.
pub open spec fn chain_of(state: ContextState, id: Uuid) -> Option<IpldChainAggregate> {
    if state.chains.contains_key(id.0) { Some(state.chains[id.0]) } else { None }
}

/// Generates a content id for every event and adds the event to its
/// aggregate's chain (started when the aggregate has none).
#[derive(Debug)]
pub struct CidGenerationPolicy;

impl Policy for CidGenerationPolicy {
    open spec fn triggers(&self, event: GraphEvent) -> bool {
        true
    }

    open spec fn ready(&self, event: GraphEvent, state: ContextState) -> bool {
        &&& state.metrics.cids_generated < usize::MAX
        &&& chain_of(state, event.aggregate_id) matches Some(c) ==> c.metadata.length < usize::MAX
    }

    /// One action, the event's content id; the event is added to its
    /// aggregate's chain, started when there is none.
    open spec fn effect(&self, event: GraphEvent, before: ContextState, after: ContextState,
        r: Result<Seq<PolicyAction>>) -> bool {
        let cid = payload_cid(payload_json(event.payload));
        let id = event.aggregate_id;
        &&& r is Ok
        &&& r->Ok_0.len() == 1
        &&& r->Ok_0[0] matches PolicyAction::GenerateCid { event_id, cid: c } && event_id == event.event_id && c@ == cid
        &&& after.chains.contains_key(id.0)
        &&& ({
            let prior = chain_of(before, id);
            let chain = after.chains[id.0];
            &&& cid_texts(chain.chain@) == seq![cid] + (match prior {
                    Some(c) => cid_texts(c.chain@),
                    None => Seq::empty(),
                })
            &&& json_view(chain.payloads@[cid]) == payload_json(event.payload)
            &&& chain.metadata.length == (match prior { Some(c) => c.metadata.length + 1, None => 1 })
            &&& chain.metadata.aggregate_id == (match prior { Some(c) => c.metadata.aggregate_id, None => id })
        })
        &&& forall|k: u128| k != id.0 ==>
            (#[trigger] after.chains.contains_key(k)) == before.chains.contains_key(k)
            && (before.chains.contains_key(k) ==> after.chains[k] == before.chains[k])
        &&& after.machine == before.machine
        &&& after.metrics == (PolicyMetrics { cids_generated: (before.metrics.cids_generated + 1) as usize, ..before.metrics })
    }

    fn name(&self) -> (s: &str)
        ensures
            s@ == "CID Generation Policy"@,
    {
        "CID Generation Policy"
    }

    fn should_trigger(&self, _event: &GraphEvent) -> (b: bool) {
        true
    }

    fn ready_to_run(&self, event: &GraphEvent, context: &PolicyContext) -> (b: bool) {
        if context.metrics.cids_generated == usize::MAX {
            return false;
        }
        match context.ipld_chains.get(&event.aggregate_id.0) {
            Some(c) => c.metadata.length < usize::MAX,
            None => true,
        }
    }

    fn execute(&self, event: &GraphEvent, context: &mut PolicyContext) -> (r: Result<Vec<PolicyAction>>) {
        let payload = event.payload.to_json();
        let cid = match generate_cid_for_payload(&payload) {
            Ok(c) => c,
            Err(e) => return Err(e),
        };
        let id = event.aggregate_id.0;
        let mut chain = match context.ipld_chains.remove(&id) {
            Some(c) => c,
            None => IpldChainAggregate::new(event.aggregate_id),
        };
        match chain.add_event(payload) {
            Ok(_) => {},
            Err(e) => return Err(e),
        }
        context.ipld_chains.insert(id, chain);
        context.metrics.cids_generated = context.metrics.cids_generated + 1;
        let mut actions: Vec<PolicyAction> = Vec::new();
        actions.push(PolicyAction::GenerateCid { event_id: event.event_id, cid });
        Ok(actions)
    }
}

/// Asks for the projection of the event's aggregate to be updated and its
/// cached copy to be dropped.
#[derive(Debug)]
pub struct ProjectionUpdatePolicy;

impl Policy for ProjectionUpdatePolicy {
    open spec fn triggers(&self, event: GraphEvent) -> bool {
        true
    }

    open spec fn ready(&self, event: GraphEvent, state: ContextState) -> bool {
        state.metrics.projections_updated < usize::MAX
    }

    /// Two actions: update the aggregate's projection, then drop its
    /// cached copy.
    open spec fn effect(&self, event: GraphEvent, before: ContextState, after: ContextState,
        r: Result<Seq<PolicyAction>>) -> bool {
        &&& r is Ok
        &&& r->Ok_0.len() == 2
        &&& r->Ok_0[0] matches PolicyAction::UpdateProjection { aggregate_id: a } && a == event.aggregate_id
        &&& r->Ok_0[1] matches PolicyAction::InvalidateCache { aggregate_id: b } && b == event.aggregate_id
        &&& after.chains == before.chains
        &&& after.machine == before.machine
        &&& after.metrics == (PolicyMetrics { projections_updated: (before.metrics.projections_updated + 1) as usize, ..before.metrics })
    }

    fn name(&self) -> (s: &str)
        ensures
            s@ == "Projection Update Policy"@,
    {
        "Projection Update Policy"
    }

    fn should_trigger(&self, _event: &GraphEvent) -> (b: bool) {
        true
    }

    fn ready_to_run(&self, event: &GraphEvent, context: &PolicyContext) -> (b: bool) {
        context.metrics.projections_updated < usize::MAX
    }

    fn execute(&self, event: &GraphEvent, context: &mut PolicyContext) -> (r: Result<Vec<PolicyAction>>) {
        let mut actions: Vec<PolicyAction> = Vec::new();
        actions.push(PolicyAction::UpdateProjection { aggregate_id: event.aggregate_id });
        actions.push(PolicyAction::InvalidateCache { aggregate_id: event.aggregate_id });
        context.metrics.projections_updated = context.metrics.projections_updated + 1;
        Ok(actions)
    }
}

/// Whether an event changes state: a generic event whose type names a state
/// or a transition.
pub open spec fn changes_state(event: GraphEvent) -> bool {
    event.payload matches EventPayload::Generic(p)
        && (has_substring(p.event_type@, "State"@) || has_substring(p.event_type@, "Transitioned"@))
}

/// Whether the state machine can count what an event adds.
fn counts_have_room(sm: &GraphStateMachine, event: &GraphEvent) -> (b: bool)
    ensures
        b == counts_fit(sm.state_of(event.aggregate_id), event.payload),
{
    proof {
        reveal_strlit("GraphInitialized"); reveal_strlit("NodeAdded"); reveal_strlit("EdgeAdded");
        assert("NodeAdded"@.len() != "GraphInitialized"@.len());
        assert("EdgeAdded"@.len() != "GraphInitialized"@.len());
        assert("EdgeAdded"@[0] != "NodeAdded"@[0]);
    }
    match &event.payload {
        EventPayload::Generic(g) => match sm.get_state(&event.aggregate_id) {
            GraphState::Active { nodes, edges } => {
                if str_eq(g.event_type.as_str(), "GraphInitialized") {
                    true
                } else if str_eq(g.event_type.as_str(), "NodeAdded") {
                    nodes < usize::MAX
                } else if str_eq(g.event_type.as_str(), "EdgeAdded") {
                    edges < usize::MAX
                } else {
                    true
                }
            },
            _ => true,
        },
        _ => true,
    }
}

/// Applies state-changing events to the state machine.
#[derive(Debug)]
pub struct StateValidationPolicy;

impl Policy for StateValidationPolicy {
    open spec fn triggers(&self, event: GraphEvent) -> bool {
        changes_state(event)
    }

    open spec fn ready(&self, event: GraphEvent, state: ContextState) -> bool {
        counts_fit(state.machine.state_of(event.aggregate_id), event.payload)
    }

    /// One action, validating the aggregate's transition; the event is
    /// applied to the state machine.
    open spec fn effect(&self, event: GraphEvent, before: ContextState, after: ContextState,
        r: Result<Seq<PolicyAction>>) -> bool {
        &&& r is Ok
        &&& r->Ok_0.len() == 1
        &&& r->Ok_0[0] matches PolicyAction::ValidateTransition { aggregate_id: a } && a == event.aggregate_id
        &&& after.machine.states() == before.machine.states().insert(event.aggregate_id.0,
                next_state(before.machine.state_of(event.aggregate_id), event.payload))
        &&& after.chains == before.chains
        &&& after.metrics == before.metrics
    }

    fn name(&self) -> (s: &str)
        ensures
            s@ == "State Validation Policy"@,
    {
        "State Validation Policy"
    }

    fn should_trigger(&self, event: &GraphEvent) -> (b: bool) {
        match &event.payload {
            EventPayload::Generic(p) => text_contains(p.event_type.as_str(), "State")
                || text_contains(p.event_type.as_str(), "Transitioned"),
            _ => false,
        }
    }

    fn ready_to_run(&self, event: &GraphEvent, context: &PolicyContext) -> (b: bool) {
        counts_have_room(context.state_machine, event)
    }

    fn execute(&self, event: &GraphEvent, context: &mut PolicyContext) -> (r: Result<Vec<PolicyAction>>) {
        context.state_machine.apply_event(event);
        let mut actions: Vec<PolicyAction> = Vec::new();
        actions.push(PolicyAction::ValidateTransition { aggregate_id: event.aggregate_id });
        Ok(actions)
    }
}

/// Whether an event calls for validating its aggregate's chain: IPLD
/// events and generic "ChainModified" events.
pub open spec fn touches_chain(event: GraphEvent) -> bool {
    match event.payload {
        EventPayload::Ipld(_) => true,
        EventPayload::Generic(p) => p.event_type@ == "ChainModified"@,
        _ => false,
    }
}

/// Verifies the chain of the event's aggregate, when it has one.
#[derive(Debug)]
pub struct ChainValidationPolicy;

impl Policy for ChainValidationPolicy {
    open spec fn triggers(&self, event: GraphEvent) -> bool {
        touches_chain(event)
    }

    /// Its counts have room, and following links from the chain's root
    /// stops within one more content id than there are links.
    open spec fn ready(&self, event: GraphEvent, state: ContextState) -> bool {
        &&& state.metrics.chains_validated < usize::MAX
        &&& state.metrics.errors_caught < usize::MAX
        &&& chain_of(state, event.aggregate_id) matches Some(c) ==> (c.chain@.len() > 0 ==> {
            &&& c.links@.len() < usize::MAX
            &&& walk_ends(link_map(c.links), c.root_cid@, (c.links@.len() + 1) as nat)
        })
    }

    /// No action when the aggregate has no chain; else the chain is
    /// verified: one action when it holds, its error (counted) when not.
    open spec fn effect(&self, event: GraphEvent, before: ContextState, after: ContextState,
        r: Result<Seq<PolicyAction>>) -> bool {
        &&& after.chains == before.chains
        &&& after.machine == before.machine
        &&& match chain_of(before, event.aggregate_id) {
            None => r is Ok && r->Ok_0.len() == 0 && after.metrics == before.metrics,
            Some(c) => exists|v: Result<()>| {
                &&& #[trigger] verify_answer(c.chain@.len() as nat, chain_walk(link_map(c.links), c.root_cid@), c.payloads@, v)
                &&& match v {
                    Ok(_) => {
                        &&& r is Ok
                        &&& r->Ok_0.len() == 1
                        &&& r->Ok_0[0] matches PolicyAction::VerifyChain { aggregate_id: a } && a == event.aggregate_id
                        &&& after.metrics == (PolicyMetrics {
                            chains_validated: (before.metrics.chains_validated + 1) as usize, ..before.metrics })
                    },
                    Err(e) => r == Err::<Seq<PolicyAction>, GraphError>(e)
                        && after.metrics == (PolicyMetrics {
                            errors_caught: (before.metrics.errors_caught + 1) as usize, ..before.metrics }),
                }
            },
        }
    }

    fn name(&self) -> (s: &str)
        ensures
            s@ == "Chain Validation Policy"@,
    {
        "Chain Validation Policy"
    }

    fn should_trigger(&self, event: &GraphEvent) -> (b: bool) {
        proof { reveal_strlit("ChainModified"); }
        match &event.payload {
            EventPayload::Ipld(_) => true,
            EventPayload::Generic(p) => str_eq(p.event_type.as_str(), "ChainModified"),
            _ => false,
        }
    }

    fn ready_to_run(&self, event: &GraphEvent, context: &PolicyContext) -> (b: bool) {
        if context.metrics.chains_validated == usize::MAX || context.metrics.errors_caught == usize::MAX {
            return false;
        }
        match context.ipld_chains.get(&event.aggregate_id.0) {
            Some(c) => {
                if c.chain.len() == 0 {
                    true
                } else {
                    let n = c.links.len();
                    if n == usize::MAX {
                        false
                    } else {
                        walk_ends_within(&c.links, c.root_cid.as_str(), n)
                    }
                }
            },
            None => true,
        }
    }

    fn execute(&self, event: &GraphEvent, context: &mut PolicyContext) -> (r: Result<Vec<PolicyAction>>) {
        let verdict = match context.ipld_chains.get(&event.aggregate_id.0) {
            Some(chain) => Some(chain.verify_chain()),
            None => None,
        };
        match verdict {
            Some(Ok(_)) => {
                context.metrics.chains_validated = context.metrics.chains_validated + 1;
                let mut actions: Vec<PolicyAction> = Vec::new();
                actions.push(PolicyAction::VerifyChain { aggregate_id: event.aggregate_id });
                Ok(actions)
            },
            Some(Err(e)) => {
                context.metrics.errors_caught = context.metrics.errors_caught + 1;
                Err(e)
            },
            None => Ok(Vec::new()),
        }
    }
}

/// Whether an event is a client subscribing.
pub open spec fn is_subscription(event: GraphEvent) -> bool {
    event.payload matches EventPayload::Generic(p) && p.event_type@ == "ClientSubscribed"@
}

/// The last sequence a subscribing client has seen: the `last_sequence`
/// member of a generic event's data when it is a non-negative integer, else 0.
pub open spec fn last_sequence_of(event: GraphEvent) -> u64 {
    match event.payload {
        EventPayload::Generic(p) => match json_get(p.data, "last_sequence"@) {
            Some(JsonValue::Number(JsonNumber::PosInt(n))) => n,
            _ => 0,
        },
        _ => 0,
    }
}

/// Asks for replaying events to a client that subscribed.
#[derive(Debug)]
pub struct CollaborationPolicy;

impl Policy for CollaborationPolicy {
    open spec fn triggers(&self, event: GraphEvent) -> bool {
        is_subscription(event)
    }

    open spec fn ready(&self, event: GraphEvent, state: ContextState) -> bool {
        state.metrics.events_replayed < usize::MAX
    }

    /// One action, replaying the aggregate's events after the last
    /// sequence the client has seen.
    open spec fn effect(&self, event: GraphEvent, before: ContextState, after: ContextState,
        r: Result<Seq<PolicyAction>>) -> bool {
        &&& r is Ok
        &&& r->Ok_0.len() == 1
        &&& r->Ok_0[0] matches PolicyAction::ReplayEvents { aggregate_id: a, from_sequence: s }
            && a == event.aggregate_id && s == last_sequence_of(event)
        &&& after.chains == before.chains
        &&& after.machine == before.machine
        &&& after.metrics == (PolicyMetrics { events_replayed: (before.metrics.events_replayed + 1) as usize, ..before.metrics })
    }

    fn name(&self) -> (s: &str)
        ensures
            s@ == "Collaboration Policy"@,
    {
        "Collaboration Policy"
    }

    fn should_trigger(&self, event: &GraphEvent) -> (b: bool) {
        proof { reveal_strlit("ClientSubscribed"); }
        match &event.payload {
            EventPayload::Generic(p) => str_eq(p.event_type.as_str(), "ClientSubscribed"),
            _ => false,
        }
    }

    fn ready_to_run(&self, event: &GraphEvent, context: &PolicyContext) -> (b: bool) {
        context.metrics.events_replayed < usize::MAX
    }

    fn execute(&self, event: &GraphEvent, context: &mut PolicyContext) -> (r: Result<Vec<PolicyAction>>) {
        let last_sequence = match event.payload.as_generic() {
            Some(p) => match p.data.get("last_sequence") {
                Some(v) => match v.as_u64() {
                    Some(n) => n,
                    None => 0,
                },
                None => 0,
            },
            None => 0,
        };
        proof { reveal_strlit("last_sequence"); }
        context.metrics.events_replayed = context.metrics.events_replayed + 1;
        let mut actions: Vec<PolicyAction> = Vec::new();
        actions.push(PolicyAction::ReplayEvents { aggregate_id: event.aggregate_id, from_sequence: last_sequence });
        Ok(actions)
    }
}

impl EventPayload {
    /// The generic payload, when this is one.
    fn as_generic(&self) -> (r: Option<&crate::events::graph_events::GenericPayload>)
        ensures
            match r {
                Some(p) => *self == EventPayload::Generic(*p),
                None => !(*self is Generic),
            },
    {
        match self {
            EventPayload::Generic(p) => Some(p),
            _ => None,
        }
    }
}

/// What became of one policy on an event.
pub enum Outcome {
    /// It does not react to the event.
    Skipped,
    /// It reacts but cannot run.
    NotReady,
    /// It ran, leaving this state and answer.
    Ran(ContextState, Result<Seq<PolicyAction>>),
}

/// A state with one more error counted.
pub open spec fn with_error(state: ContextState) -> ContextState {
    ContextState { metrics: PolicyMetrics { errors_caught: (state.metrics.errors_caught + 1) as usize, ..state.metrics }, ..state }
}

/// The turn of policy `i` on an event, from `before` to `after`. A policy
/// that reacts but cannot run, or that runs and fails, adds one error.
pub open spec fn policy_step(policies: Seq<Box<dyn Policy>>, i: int, event: GraphEvent, before: ContextState,
    outcome: Outcome, after: ContextState) -> bool {
    match outcome {
        Outcome::Skipped => !policies[i].triggers(event) && after == before,
        Outcome::NotReady => policies[i].triggers(event) && !policies[i].ready(event, before) && after == with_error(before),
        Outcome::Ran(mid, answer) => {
            &&& policies[i].triggers(event)
            &&& policies[i].ready(event, before)
            &&& policies[i].effect(event, before, mid, answer)
            &&& counts_step(before.metrics, mid.metrics)
            &&& after == (if answer is Ok { mid } else { with_error(mid) })
        },
    }
}

/// The actions of the policies that ran and succeeded, in order.
pub open spec fn collected(outcomes: Seq<Outcome>) -> Seq<PolicyAction>
    decreases outcomes.len(),
{
    if outcomes.len() == 0 {
        Seq::empty()
    } else {
        collected(outcomes.drop_last()) + match outcomes.last() {
            Outcome::Ran(_, Ok(actions)) => actions,
            _ => Seq::empty(),
        }
    }
}

/// The first policies taking their turns in order: `states[i]` is the state
/// before policy `i` and `states[i + 1]` the state after it.
pub open spec fn policy_run(policies: Seq<Box<dyn Policy>>, event: GraphEvent, states: Seq<ContextState>,
    outcomes: Seq<Outcome>) -> bool {
    &&& outcomes.len() <= policies.len()
    &&& states.len() == outcomes.len() + 1
    &&& forall|i: int| #![trigger outcomes[i]] 0 <= i < outcomes.len() ==>
            policy_step(policies, i, event, states[i], outcomes[i], states[i + 1])
}

/// Runs policies on events.
pub struct PolicyEngine {
    policies: Vec<Box<dyn Policy>>,
    metrics: PolicyMetrics,
}

impl PolicyEngine {
    /// The policies, in the order they run.
    pub closed spec fn policy_list(&self) -> Seq<Box<dyn Policy>> {
        self.policies@
    }

    /// How many policies there are.
    pub closed spec fn policy_count(&self) -> nat {
        self.policies@.len()
    }

    /// The counts after the last run.
    pub closed spec fn metrics_view(&self) -> PolicyMetrics {
        self.metrics
    }

    /// An engine with the five built-in policies (content ids, projections,
    /// state validation, chain validation, collaboration) and zero counts.
    pub fn new() -> (e: Self)
        ensures
            e.metrics_view() == zero_metrics(),
            e.policy_count() == 5,
    {
        let mut policies: Vec<Box<dyn Policy>> = Vec::new();
        let p0: Box<dyn Policy> = Box::new(CidGenerationPolicy);
        let p1: Box<dyn Policy> = Box::new(ProjectionUpdatePolicy);
        let p2: Box<dyn Policy> = Box::new(StateValidationPolicy);
        let p3: Box<dyn Policy> = Box::new(ChainValidationPolicy);
        let p4: Box<dyn Policy> = Box::new(CollaborationPolicy);
        proof { vstd::seq::axiom_seq_push_len(policies@, p0); }
        policies.push(p0);
        proof { vstd::seq::axiom_seq_push_len(policies@, p1); }
        policies.push(p1);
        proof { vstd::seq::axiom_seq_push_len(policies@, p2); }
        policies.push(p2);
        proof { vstd::seq::axiom_seq_push_len(policies@, p3); }
        policies.push(p3);
        proof { vstd::seq::axiom_seq_push_len(policies@, p4); }
        policies.push(p4);
        PolicyEngine { policies, metrics: PolicyMetrics::default() }
    }

    /// Adds a policy; it runs after the others.
    pub fn add_policy(&mut self, policy: Box<dyn Policy>)
        ensures
            final(self).metrics_view() == old(self).metrics_view(),
            final(self).policy_list() == old(self).policy_list().push(policy),
            final(self).policy_count() == old(self).policy_count() + 1,
    {
        proof { vstd::seq::axiom_seq_push_len(self.policies@, policy); }
        self.policies.push(policy);
    }

    /// Runs every policy that reacts to the event, in order, collecting the
    /// actions they ask for. A policy that fails, or that cannot run, is
    /// counted as an error and the others still run. The engine's counts
    /// then follow the context's.
    pub fn execute_policies(&mut self, event: &GraphEvent, context: &mut PolicyContext) -> (r: Result<Vec<PolicyAction>>)
        requires
            counts_at_most(old(context).metrics, usize::MAX - 2 * old(self).policy_count()),
        ensures
            r is Ok,
            exists|states: Seq<ContextState>, outcomes: Seq<Outcome>| {
                &&& #[trigger] policy_run(old(self).policy_list(), *event, states, outcomes)
                &&& outcomes.len() == old(self).policy_count()
                &&& states[0] == context_state(*old(context))
                &&& states.last() == context_state(*final(context))
                &&& r->Ok_0@ == collected(outcomes)
            },
            final(self).policy_list() == old(self).policy_list(),
            final(self).policy_count() == old(self).policy_count(),
            final(self).metrics_view() == final(context).metrics,
    {
        let ghost policies = self.policies@;
        let ghost mut states: Seq<ContextState> = seq![context_state(*context)];
        let ghost mut outcomes: Seq<Outcome> = Seq::empty();
        let mut all_actions: Vec<PolicyAction> = Vec::new();
        let mut i: usize = 0;
        while i < self.policies.len()
            invariant
                policies == self.policies@,
                i <= self.policies@.len(),
                counts_at_most(context.metrics, usize::MAX - 2 * self.policies@.len() + 2 * i),
                outcomes.len() == i,
                policy_run(policies, *event, states, outcomes),
                states[0] == context_state(*old(context)),
                states.last() == context_state(*context),
                all_actions@ == collected(outcomes),
            decreases self.policies@.len() - i,
        {
            let policy = &self.policies[i];
            let ghost before = context_state(*context);
            let ghost mut outcome = Outcome::Skipped;
            if policy.should_trigger(event) {
                if policy.ready_to_run(event, context) {
                    let answer = policy.execute(event, context);
                    let ghost mid = context_state(*context);
                    proof { outcome = Outcome::Ran(mid, actions_view(answer)); }
                    match answer {
                        Ok(mut actions) => {
                            all_actions.append(&mut actions);
                        },
                        Err(_) => {
                            context.metrics.errors_caught = context.metrics.errors_caught + 1;
                        },
                    }
                } else {
                    proof { outcome = Outcome::NotReady; }
                    context.metrics.errors_caught = context.metrics.errors_caught + 1;
                }
            }
            proof {
                let new_states = states.push(context_state(*context));
                let new_outcomes = outcomes.push(outcome);
                assert(policy_step(policies, i as int, *event, before, outcome, context_state(*context)));
                assert forall|j: int| #![trigger new_outcomes[j]] 0 <= j < new_outcomes.len() implies
                    policy_step(policies, j, *event, new_states[j], new_outcomes[j], new_states[j + 1]) by {
                    if j < i {
                        assert(new_outcomes[j] == outcomes[j]);
                        assert(new_states[j + 1] == states[j + 1]);
                    }
                }
                assert(new_outcomes.drop_last() =~= outcomes);
                states = new_states;
                outcomes = new_outcomes;
            }
            i = i + 1;
        }
        self.metrics = context.metrics;
        assert(policy_run(old(self).policy_list(), *event, states, outcomes));
        Ok(all_actions)
    }

    /// The counts after the last run.
    pub fn get_metrics(&self) -> (m: &PolicyMetrics)
        ensures
            *m == self.metrics_view(),
    {
        &self.metrics
    }
}

/// Runs the engine's policies on an event.
pub fn process_event_policies(event: &GraphEvent, engine: &mut PolicyEngine, context: &mut PolicyContext) -> (r: Result<Vec<PolicyAction>>)
    requires
        counts_at_most(old(context).metrics, usize::MAX - 2 * old(engine).policy_count()),
    ensures
        r is Ok,
        exists|states: Seq<ContextState>, outcomes: Seq<Outcome>| {
            &&& #[trigger] policy_run(old(engine).policy_list(), *event, states, outcomes)
            &&& outcomes.len() == old(engine).policy_count()
            &&& states[0] == context_state(*old(context))
            &&& states.last() == context_state(*final(context))
            &&& r->Ok_0@ == collected(outcomes)
        },
        final(engine).policy_list() == old(engine).policy_list(),
        final(engine).policy_count() == old(engine).policy_count(),
        final(engine).metrics_view() == final(context).metrics,
{
    engine.execute_policies(event, context)
}

} // verus!
