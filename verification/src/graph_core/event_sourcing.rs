//! Event sourcing for graphs: events carry correlation and causation ids and
//! a version that orders them within their aggregate; a store keeps them and
//! answers queries; aggregates are rebuilt by replaying them.

use vstd::prelude::*;
use vstd::string::*;
use std::collections::HashMap;
use crate::graph_core::graph::GraphType;
use crate::ids::{Uuid, Timestamp, uuid_nibble};
use crate::json::JsonValue;
use crate::strmap::StrMap;
use crate::text::clone_opt_text;

verus! {

broadcast use vstd::std_specs::hash::group_hash_axioms;

/// Ids, version and time of an event, and who triggered it.
#[derive(Debug)]
pub struct EventMetadata {
    /// Unique event id
    pub event_id: Uuid,
    /// The aggregate the event belongs to
    pub aggregate_id: Uuid,
    /// Groups related events across aggregates
    pub correlation_id: Uuid,
    /// The event that caused this one
    pub causation_id: Option<Uuid>,
    /// Orders events within their aggregate
    pub version: u64,
    /// When the event occurred
    pub occurred_at: Timestamp,
    /// The user or system that triggered it
    pub triggered_by: String,
    /// Further metadata
    pub metadata: StrMap<JsonValue>,
}

/// The content of event metadata.
pub struct MetadataView {
    pub event_id: Uuid,
    pub aggregate_id: Uuid,
    pub correlation_id: Uuid,
    pub causation_id: Option<Uuid>,
    pub version: u64,
    pub occurred_at: Timestamp,
    pub triggered_by: Seq<char>,
    pub metadata: Map<Seq<char>, JsonValue>,
}

impl View for EventMetadata {
    type V = MetadataView;

    open spec fn view(&self) -> MetadataView {
        MetadataView {
            event_id: self.event_id,
            aggregate_id: self.aggregate_id,
            correlation_id: self.correlation_id,
            causation_id: self.causation_id,
            version: self.version,
            occurred_at: self.occurred_at,
            triggered_by: self.triggered_by@,
            metadata: self.metadata@,
        }
    }
}

impl Clone for EventMetadata {
    fn clone(&self) -> (res: Self)
        ensures
            res@ == self@,
    {
        let metadata = self.metadata.clone();
        assert(metadata@ =~= self.metadata@);
        EventMetadata {
            event_id: self.event_id,
            aggregate_id: self.aggregate_id,
            correlation_id: self.correlation_id,
            causation_id: self.causation_id,
            version: self.version,
            occurred_at: self.occurred_at,
            triggered_by: self.triggered_by.clone(),
            metadata,
        }
    }
}

impl EventMetadata {
    /// Metadata of a new event of an aggregate: a fresh (version 4) event id,
    /// no causation, the current time and no further metadata.
    pub fn new(aggregate_id: Uuid, correlation_id: Uuid, version: u64, triggered_by: String) -> (m: Self)
        ensures
            uuid_nibble(m.event_id.0, 12) == 4,
            m.aggregate_id == aggregate_id,
            m.correlation_id == correlation_id,
            m.causation_id is None,
            m.version == version,
            m.triggered_by == triggered_by,
            m.metadata@ == Map::<Seq<char>, JsonValue>::empty(),
    {
        EventMetadata {
            event_id: Uuid::new_v4(),
            aggregate_id,
            correlation_id,
            causation_id: None,
            version,
            occurred_at: Timestamp::now(),
            triggered_by,
            metadata: StrMap::new(),
        }
    }

    /// The same metadata, for an event caused by `causation_id`.
    pub fn with_causation(self, causation_id: Uuid) -> (m: Self)
        ensures
            m@ == (MetadataView { causation_id: Some(causation_id), ..self@ }),
    {
        let mut m = self;
        m.causation_id = Some(causation_id);
        m
    }

    /// The same metadata with one more entry (replacing one with that key).
    pub fn with_metadata(self, key: String, value: JsonValue) -> (m: Self)
        ensures
            m@ == (MetadataView { metadata: self@.metadata.insert(key@, value), ..self@ }),
    {
        let mut m = self;
        m.metadata.insert(key, value);
        m
    }
}

/// What happened to a graph.
#[derive(Debug)]
pub enum GraphEventPayload {
    /// The graph was created
    GraphCreated {
        /// Its type
        graph_type: GraphType,
        /// Its name, if any
        name: Option<String>,
        /// Its description, if any
        description: Option<String>,
    },
    /// A node was added
    NodeAdded {
        /// Node id
        node_id: String,
        /// Node type
        node_type: String,
        /// Node data
        data: JsonValue,
    },
    /// An edge was added
    EdgeAdded {
        /// Edge id
        edge_id: String,
        /// Source node id
        source_id: String,
        /// Target node id
        target_id: String,
        /// Edge type
        edge_type: String,
        /// Edge data
        data: JsonValue,
    },
    /// A node was removed
    NodeRemoved {
        /// Node id
        node_id: String,
    },
    /// An edge was removed
    EdgeRemoved {
        /// Edge id
        edge_id: String,
    },
    /// A metadata field changed
    MetadataUpdated {
        /// The field
        field: String,
        /// Its value before
        old_value: Option<JsonValue>,
        /// Its value after
        new_value: Option<JsonValue>,
    },
    /// The graph was cleared
    GraphCleared,
}

/// A copy of an optional JSON value.
fn clone_opt_json(o: &Option<JsonValue>) -> (r: Option<JsonValue>)
    ensures
        r == *o,
{
    match o {
        Some(v) => Some(v.clone()),
        None => None,
    }
}

impl Clone for GraphEventPayload {
    fn clone(&self) -> (res: Self)
        ensures
            res == *self,
    {
        match self {
            GraphEventPayload::GraphCreated { graph_type, name, description } => GraphEventPayload::GraphCreated {
                graph_type: *graph_type,
                name: clone_opt_text(name),
                description: clone_opt_text(description),
            },
            GraphEventPayload::NodeAdded { node_id, node_type, data } => GraphEventPayload::NodeAdded {
                node_id: node_id.clone(),
                node_type: node_type.clone(),
                data: data.clone(),
            },
            GraphEventPayload::EdgeAdded { edge_id, source_id, target_id, edge_type, data } => GraphEventPayload::EdgeAdded {
                edge_id: edge_id.clone(),
                source_id: source_id.clone(),
                target_id: target_id.clone(),
                edge_type: edge_type.clone(),
                data: data.clone(),
            },
            GraphEventPayload::NodeRemoved { node_id } => GraphEventPayload::NodeRemoved { node_id: node_id.clone() },
            GraphEventPayload::EdgeRemoved { edge_id } => GraphEventPayload::EdgeRemoved { edge_id: edge_id.clone() },
            GraphEventPayload::MetadataUpdated { field, old_value, new_value } => GraphEventPayload::MetadataUpdated {
                field: field.clone(),
                old_value: clone_opt_json(old_value),
                new_value: clone_opt_json(new_value),
            },
            GraphEventPayload::GraphCleared => GraphEventPayload::GraphCleared,
        }
    }
}

/// An event: its metadata and payload.
#[derive(Debug)]
pub struct GraphEvent {
    /// Ids, version and time
    pub metadata: EventMetadata,
    /// What happened
    pub payload: GraphEventPayload,
}

/// The content of an event.
pub struct EventView {
    pub metadata: MetadataView,
    pub payload: GraphEventPayload,
}

impl View for GraphEvent {
    type V = EventView;

    open spec fn view(&self) -> EventView {
        EventView { metadata: self.metadata@, payload: self.payload }
    }
}

impl Clone for GraphEvent {
    fn clone(&self) -> (res: Self)
        ensures
            res@ == self@,
    {
        GraphEvent { metadata: self.metadata.clone(), payload: self.payload.clone() }
    }
}

/// The content of a list of events.
pub open spec fn events_view(v: Seq<GraphEvent>) -> Seq<EventView> {
    v.map_values(|e: GraphEvent| e@)
}

/// A graph rebuilt from its events: its type, version, name and description,
/// and how many nodes and edges it has.
#[derive(Debug)]
pub struct GraphAggregate {
    /// The aggregate's id
    pub id: Uuid,
    /// Its graph type
    pub graph_type: GraphType,
    /// Number of events applied
    pub version: u64,
    /// Number of nodes
    pub node_count: usize,
    /// Number of edges
    pub edge_count: usize,
    /// Its name, if it has one
    pub name: Option<String>,
    /// Its description, if it has one
    pub description: Option<String>,
}

/// The content of an aggregate.
pub struct AggregateView {
    pub id: Uuid,
    pub graph_type: GraphType,
    pub version: u64,
    pub node_count: nat,
    pub edge_count: nat,
    pub name: Option<String>,
    pub description: Option<String>,
}

/// `n` less one, but never below zero.
pub open spec fn less_one(n: nat) -> nat {
    if n == 0 { 0 } else { (n - 1) as nat }
}

/// What one event does to an aggregate: the version follows the event;
/// nodes and edges are counted up when added and down (not below zero) when
/// removed; clearing resets both counts.
pub open spec fn aggregate_step(a: AggregateView, e: EventView) -> AggregateView {
    let b = AggregateView { version: e.metadata.version, ..a };
    match e.payload {
        GraphEventPayload::GraphCreated { graph_type, name, description } => AggregateView { graph_type, name, description, ..b },
        GraphEventPayload::NodeAdded { .. } => AggregateView { node_count: b.node_count + 1, ..b },
        GraphEventPayload::NodeRemoved { .. } => AggregateView { node_count: less_one(b.node_count), ..b },
        GraphEventPayload::EdgeAdded { .. } => AggregateView { edge_count: b.edge_count + 1, ..b },
        GraphEventPayload::EdgeRemoved { .. } => AggregateView { edge_count: less_one(b.edge_count), ..b },
        GraphEventPayload::GraphCleared => AggregateView { node_count: 0, edge_count: 0, ..b },
        GraphEventPayload::MetadataUpdated { .. } => b,
    }
}

/// Whether the counts after an event still fit in a `usize`.
pub open spec fn step_fits(a: AggregateView, e: EventView) -> bool {
    &&& e.payload is NodeAdded ==> a.node_count < usize::MAX
    &&& e.payload is EdgeAdded ==> a.edge_count < usize::MAX
}

/// The left fold of `aggregate_step` over events.
pub open spec fn replayed(a: AggregateView, events: Seq<EventView>) -> AggregateView
    decreases events.len(),
{
    if events.len() == 0 {
        a
    } else {
        aggregate_step(replayed(a, events.drop_last()), events.last())
    }
}

/// Whether the counts fit in a `usize` at every step of a replay.
pub open spec fn replay_fits(a: AggregateView, events: Seq<EventView>) -> bool
    decreases events.len(),
{
    if events.len() == 0 {
        true
    } else {
        replay_fits(a, events.drop_last()) && step_fits(replayed(a, events.drop_last()), events.last())
    }
}

/// The content of a new aggregate.
pub open spec fn fresh_aggregate(id: Uuid) -> AggregateView {
    AggregateView {
        id,
        graph_type: GraphType::Generic,
        version: 0,
        node_count: 0,
        edge_count: 0,
        name: None,
        description: None,
    }
}

impl View for GraphAggregate {
    type V = AggregateView;

    open spec fn view(&self) -> AggregateView {
        AggregateView {
            id: self.id,
            graph_type: self.graph_type,
            version: self.version,
            node_count: self.node_count as nat,
            edge_count: self.edge_count as nat,
            name: self.name,
            description: self.description,
        }
    }
}

/// A prefix of a replay that fits fits too.
proof fn lemma_replay_fits_prefix(a: AggregateView, events: Seq<EventView>, n: int)
    requires
        replay_fits(a, events),
        0 <= n <= events.len(),
    ensures
        replay_fits(a, events.take(n)),
    decreases events.len(),
{
    if n < events.len() {
        assert(events.drop_last().take(n) =~= events.take(n));
        lemma_replay_fits_prefix(a, events.drop_last(), n);
    } else {
        assert(events.take(n) =~= events);
    }
}

impl GraphAggregate {
    /// A new generic aggregate with no events applied.
    pub fn new(id: Uuid) -> (g: Self)
        ensures
            g@ == fresh_aggregate(id),
    {
        GraphAggregate {
            id,
            graph_type: GraphType::Generic,
            version: 0,
            node_count: 0,
            edge_count: 0,
            name: None,
            description: None,
        }
    }

    /// Rebuilds an aggregate by applying its events in order.
    pub fn replay(id: Uuid, events: Vec<GraphEvent>) -> (g: Self)
        requires
            replay_fits(fresh_aggregate(id), events_view(events@)),
        ensures
            g@ == replayed(fresh_aggregate(id), events_view(events@)),
    {
        let mut aggregate = GraphAggregate::new(id);
        let ghost all = events_view(events@);
        let mut i: usize = 0;
        while i < events.len()
            invariant
                i <= events@.len(),
                all == events_view(events@),
                replay_fits(fresh_aggregate(id), all),
                aggregate@ == replayed(fresh_aggregate(id), all.take(i as int)),
            decreases events@.len() - i,
        {
            proof {
                lemma_replay_fits_prefix(fresh_aggregate(id), all, i + 1);
                assert(all.take(i + 1).drop_last() =~= all.take(i as int));
                assert(all.take(i + 1).last() == events@[i as int]@);
            }
            aggregate.apply(&events[i]);
            i = i + 1;
        }
        assert(all.take(events@.len() as int) =~= all);
        aggregate
    }

    /// Applies an event.
    pub fn apply(&mut self, event: &GraphEvent)
        requires
            step_fits(old(self)@, event@),
        ensures
            final(self)@ == aggregate_step(old(self)@, event@),
    {
        self.version = event.metadata.version;
        match &event.payload {
            GraphEventPayload::GraphCreated { graph_type, name, description } => {
                self.graph_type = *graph_type;
                self.name = clone_opt_text(name);
                self.description = clone_opt_text(description);
            },
            GraphEventPayload::NodeAdded { .. } => {
                self.node_count = self.node_count + 1;
            },
            GraphEventPayload::NodeRemoved { .. } => {
                self.node_count = self.node_count.saturating_sub(1);
            },
            GraphEventPayload::EdgeAdded { .. } => {
                self.edge_count = self.edge_count + 1;
            },
            GraphEventPayload::EdgeRemoved { .. } => {
                self.edge_count = self.edge_count.saturating_sub(1);
            },
            GraphEventPayload::GraphCleared => {
                self.node_count = 0;
                self.edge_count = 0;
            },
            GraphEventPayload::MetadataUpdated { .. } => {},
        }
    }

    /// The version of the last event applied.
    pub fn version(&self) -> (v: u64)
        ensures
            v == self@.version,
    {
        self.version
    }

    /// The number of nodes.
    pub fn node_count(&self) -> (n: usize)
        ensures
            n == self@.node_count,
    {
        self.node_count
    }

    /// The number of edges.
    pub fn edge_count(&self) -> (n: usize)
        ensures
            n == self@.edge_count,
    {
        self.edge_count
    }
}

/// The events of an aggregate, in order.
pub open spec fn of_aggregate(log: Seq<EventView>, aggregate_id: u128) -> Seq<EventView>
    decreases log.len(),
{
    if log.len() == 0 {
        log
    } else if log.last().metadata.aggregate_id.0 == aggregate_id {
        of_aggregate(log.drop_last(), aggregate_id).push(log.last())
    } else {
        of_aggregate(log.drop_last(), aggregate_id)
    }
}

/// The events with a correlation id, in order.
pub open spec fn of_correlation(log: Seq<EventView>, correlation_id: u128) -> Seq<EventView>
    decreases log.len(),
{
    if log.len() == 0 {
        log
    } else if log.last().metadata.correlation_id.0 == correlation_id {
        of_correlation(log.drop_last(), correlation_id).push(log.last())
    } else {
        of_correlation(log.drop_last(), correlation_id)
    }
}

/// The events whose version lies in `from..=to`, in order.
pub open spec fn in_version_range(s: Seq<EventView>, from: u64, to: u64) -> Seq<EventView>
    decreases s.len(),
{
    if s.len() == 0 {
        s
    } else if from <= s.last().metadata.version <= to {
        in_version_range(s.drop_last(), from, to).push(s.last())
    } else {
        in_version_range(s.drop_last(), from, to)
    }
}

/// Each event id with the last event stored under it.
pub open spec fn latest_by_id(log: Seq<EventView>) -> Map<u128, EventView>
    decreases log.len(),
{
    if log.len() == 0 {
        Map::empty()
    } else {
        latest_by_id(log.drop_last()).insert(log.last().metadata.event_id.0, log.last())
    }
}

/// Following causation ids from `id` for at most `fuel` events: the events
/// met, from the given one back to its earliest known cause.
pub open spec fn chain_from(by_id: Map<u128, EventView>, id: u128, fuel: nat) -> Seq<EventView>
    decreases fuel,
{
    if fuel == 0 || !by_id.contains_key(id) {
        Seq::empty()
    } else {
        seq![by_id[id]] + match by_id[id].metadata.causation_id {
            Some(c) => chain_from(by_id, c.0, (fuel - 1) as nat),
            None => Seq::empty(),
        }
    }
}

/// Whether following causation ids from `id` stops (at an event with no
/// cause, or at an id with no event) within `fuel` events.
pub open spec fn chain_ends(by_id: Map<u128, EventView>, id: u128, fuel: nat) -> bool
    decreases fuel,
{
    if !by_id.contains_key(id) {
        true
    } else if fuel == 0 {
        false
    } else {
        match by_id[id].metadata.causation_id {
            Some(c) => chain_ends(by_id, c.0, (fuel - 1) as nat),
            None => true,
        }
    }
}

/// The causation chain of an event, from the event back to its earliest
/// known cause, where following causation ids stops.
pub open spec fn causation_chain(by_id: Map<u128, EventView>, id: u128) -> Seq<EventView> {
    chain_from(by_id, id, choose|f: nat| chain_ends(by_id, id, f))
}

/// Stores events and answers queries on them.
pub trait EventStore {
    /// Whether following causation ids from an event stops.
    spec fn causation_chain_ends(&self, event_id: Uuid) -> bool;

    /// Appends events.
    fn append(&mut self, events: Vec<GraphEvent>) -> core::result::Result<(), String>;

    /// The events of an aggregate.
    fn get_events(&self, aggregate_id: Uuid) -> Vec<GraphEvent>;

    /// The events with a correlation id.
    fn get_correlated_events(&self, correlation_id: Uuid) -> Vec<GraphEvent>;

    /// The causation chain of an event, earliest cause first.
    fn get_causation_chain(&self, event_id: Uuid) -> Vec<GraphEvent>
        requires
            self.causation_chain_ends(event_id),
    ;

    /// The events of an aggregate whose version lies in `from_version..=to_version`.
    fn get_events_in_range(&self, aggregate_id: Uuid, from_version: u64, to_version: u64) -> Vec<GraphEvent>;
}

/// Whether the indexes of a store agree with its log.
pub open spec fn indexes_agree(
    events: Seq<GraphEvent>,
    by_aggregate: Map<u128, Vec<GraphEvent>>,
    by_correlation: Map<u128, Vec<GraphEvent>>,
    by_event_id: Map<u128, GraphEvent>,
) -> bool {
    let log = events_view(events);
    &&& forall|a: u128| #[trigger] by_aggregate.contains_key(a) <==> of_aggregate(log, a).len() > 0
    &&& forall|a: u128| #[trigger] by_aggregate.contains_key(a) ==> events_view(by_aggregate[a]@) == of_aggregate(log, a)
    &&& forall|c: u128| #[trigger] by_correlation.contains_key(c) <==> of_correlation(log, c).len() > 0
    &&& forall|c: u128| #[trigger] by_correlation.contains_key(c) ==> events_view(by_correlation[c]@) == of_correlation(log, c)
    &&& forall|i: u128| #[trigger] by_event_id.contains_key(i) <==> latest_by_id(log).contains_key(i)
    &&& forall|i: u128| #[trigger] by_event_id.contains_key(i) ==> by_event_id[i]@ == latest_by_id(log)[i]
}

/// Events kept in memory, in the order they were appended, with indexes by
/// aggregate, by correlation and by event id.
#[derive(Debug)]
pub struct MemoryEventStore {
    events: Vec<GraphEvent>,
    by_aggregate: HashMap<u128, Vec<GraphEvent>>,
    by_correlation: HashMap<u128, Vec<GraphEvent>>,
    by_event_id: HashMap<u128, GraphEvent>,
}

/// A copy of a list of events.
fn clone_events(v: &Vec<GraphEvent>) -> (r: Vec<GraphEvent>)
    ensures
        events_view(r@) == events_view(v@),
{
    let mut r: Vec<GraphEvent> = Vec::new();
    let mut i: usize = 0;
    while i < v.len()
        invariant
            i <= v@.len(),
            events_view(r@) == events_view(v@).take(i as int),
        decreases v@.len() - i,
    {
        let ghost before = r@;
        r.push(v[i].clone());
        assert(events_view(r@) =~= events_view(before).push(v@[i as int]@));
        assert(events_view(v@).take(i + 1) =~= events_view(v@).take(i as int).push(v@[i as int]@));
        i = i + 1;
    }
    assert(events_view(v@).take(v@.len() as int) =~= events_view(v@));
    r
}

/// Adds a copy of an event to the list kept under `key`.
fn add_to_index(index: &mut HashMap<u128, Vec<GraphEvent>>, key: u128, e: &GraphEvent)
    ensures
        final(index)@.dom() == old(index)@.dom().insert(key),
        forall|k: u128| k != key && #[trigger] old(index)@.contains_key(k) ==> final(index)@[k] == old(index)@[k],
        events_view(final(index)@[key]@) == (if old(index)@.contains_key(key) {
            events_view(old(index)@[key]@)
        } else {
            Seq::empty()
        }).push(e@),
{
    let mut list = match index.remove(&key) {
        Some(l) => l,
        None => Vec::new(),
    };
    let ghost before = list@;
    list.push(e.clone());
    assert(events_view(list@) =~= events_view(before).push(e@));
    index.insert(key, list);
    assert(index@.dom() =~= old(index)@.dom().insert(key));
}

proof fn lemma_of_aggregate_push(log: Seq<EventView>, e: EventView, a: u128)
    ensures
        of_aggregate(log.push(e), a) == if e.metadata.aggregate_id.0 == a { of_aggregate(log, a).push(e) } else { of_aggregate(log, a) },
{
    assert(log.push(e).drop_last() =~= log);
}

proof fn lemma_of_correlation_push(log: Seq<EventView>, e: EventView, c: u128)
    ensures
        of_correlation(log.push(e), c) == if e.metadata.correlation_id.0 == c { of_correlation(log, c).push(e) } else { of_correlation(log, c) },
{
    assert(log.push(e).drop_last() =~= log);
}

impl MemoryEventStore {
    #[verifier::type_invariant]
    spec fn consistent(&self) -> bool {
        indexes_agree(self.events@, self.by_aggregate@, self.by_correlation@, self.by_event_id@)
    }

    /// The events, in the order they were appended.
    pub closed spec fn log(&self) -> Seq<EventView> {
        events_view(self.events@)
    }

    /// A store with no events.
    fn empty() -> (s: Self)
        ensures
            s.log() == Seq::<EventView>::empty(),
    {
        let s = MemoryEventStore {
            events: Vec::new(),
            by_aggregate: HashMap::new(),
            by_correlation: HashMap::new(),
            by_event_id: HashMap::new(),
        };
        assert(events_view(s.events@) =~= Seq::<EventView>::empty());
        s
    }
}

impl Default for MemoryEventStore {
    fn default() -> (s: Self)
        ensures
            s.log() == Seq::<EventView>::empty(),
    {
        MemoryEventStore::empty()
    }
}

impl EventStore for MemoryEventStore {
    open spec fn causation_chain_ends(&self, event_id: Uuid) -> bool {
        exists|f: nat| chain_ends(latest_by_id(self.log()), event_id.0, f)
    }

    fn append(&mut self, events: Vec<GraphEvent>) -> (r: core::result::Result<(), String>)
        ensures
            r is Ok,
            final(self).log() == old(self).log() + events_view(events@),
    {
        let mut taken = MemoryEventStore::empty();
        std::mem::swap(&mut taken, self);
        proof { use_type_invariant(&taken); }
        let ghost start = taken.log();
        let MemoryEventStore { events: mut log, by_aggregate: mut ba, by_correlation: mut bc, by_event_id: mut bi } = taken;
        let mut i: usize = 0;
        while i < events.len()
            invariant
                i <= events@.len(),
                indexes_agree(log@, ba@, bc@, bi@),
                events_view(log@) == start + events_view(events@).take(i as int),
            decreases events@.len() - i,
        {
            let e = &events[i];
            let ghost old_log = events_view(log@);
            let ghost old_ba = ba@;
            let ghost old_bc = bc@;
            let ghost old_bi = bi@;
            add_to_index(&mut ba, e.metadata.aggregate_id.0, e);
            add_to_index(&mut bc, e.metadata.correlation_id.0, e);
            bi.insert(e.metadata.event_id.0, e.clone());
            log.push(e.clone());
            let ghost new_log = events_view(log@);
            proof {
                assert(new_log =~= old_log.push(e@));
                assert(new_log.drop_last() =~= old_log);
                assert forall|a: u128| #[trigger] ba@.contains_key(a) <==> of_aggregate(new_log, a).len() > 0 by {
                    lemma_of_aggregate_push(old_log, e@, a);
                }
                assert forall|a: u128| #[trigger] ba@.contains_key(a) implies events_view(ba@[a]@) == of_aggregate(new_log, a) by {
                    lemma_of_aggregate_push(old_log, e@, a);
                }
                assert forall|c: u128| #[trigger] bc@.contains_key(c) <==> of_correlation(new_log, c).len() > 0 by {
                    lemma_of_correlation_push(old_log, e@, c);
                }
                assert forall|c: u128| #[trigger] bc@.contains_key(c) implies events_view(bc@[c]@) == of_correlation(new_log, c) by {
                    lemma_of_correlation_push(old_log, e@, c);
                }
                assert(latest_by_id(new_log) == latest_by_id(old_log).insert(e.metadata.event_id.0, e@));
                assert(events_view(events@).take(i + 1) =~= events_view(events@).take(i as int).push(e@));
                assert(new_log =~= start + events_view(events@).take(i + 1));
            }
            i = i + 1;
        }
        assert(events_view(events@).take(events@.len() as int) =~= events_view(events@));
        *self = MemoryEventStore { events: log, by_aggregate: ba, by_correlation: bc, by_event_id: bi };
        Ok(())
    }

    fn get_events(&self, aggregate_id: Uuid) -> (r: Vec<GraphEvent>)
        ensures
            events_view(r@) == of_aggregate(self.log(), aggregate_id.0),
    {
        proof { use_type_invariant(self); }
        match self.by_aggregate.get(&aggregate_id.0) {
            Some(l) => clone_events(l),
            None => {
                let r: Vec<GraphEvent> = Vec::new();
                assert(events_view(r@) =~= of_aggregate(self.log(), aggregate_id.0));
                r
            },
        }
    }

    fn get_correlated_events(&self, correlation_id: Uuid) -> (r: Vec<GraphEvent>)
        ensures
            events_view(r@) == of_correlation(self.log(), correlation_id.0),
    {
        proof { use_type_invariant(self); }
        match self.by_correlation.get(&correlation_id.0) {
            Some(l) => clone_events(l),
            None => {
                let r: Vec<GraphEvent> = Vec::new();
                assert(events_view(r@) =~= of_correlation(self.log(), correlation_id.0));
                r
            },
        }
    }

    fn get_causation_chain(&self, event_id: Uuid) -> (r: Vec<GraphEvent>)
        ensures
            events_view(r@) == causation_chain(latest_by_id(self.log()), event_id.0).reverse(),
    {
        proof { use_type_invariant(self); }
        let ghost by_id = latest_by_id(self.log());
        assert(exists|f: nat| chain_ends(by_id, event_id.0, f));
        let ghost f0: nat = choose|f: nat| chain_ends(by_id, event_id.0, f);
        let ghost whole = chain_from(by_id, event_id.0, f0);
        let mut chain: Vec<GraphEvent> = Vec::new();
        let mut current: Option<u128> = Some(event_id.0);
        let ghost mut fuel: nat = f0;
        while current.is_some()
            invariant
                by_id == latest_by_id(self.log()),
                indexes_agree(self.events@, self.by_aggregate@, self.by_correlation@, self.by_event_id@),
                whole == chain_from(by_id, event_id.0, f0),
                current matches Some(c) ==> chain_ends(by_id, c, fuel)
                    && events_view(chain@) + chain_from(by_id, c, fuel) == whole,
                current is None ==> events_view(chain@) == whole,
            ensures
                events_view(chain@) == whole,
            decreases fuel,
        {
            let c = current.unwrap();
            match self.by_event_id.get(&c) {
                Some(e) => {
                    let ghost before = chain@;
                    chain.push(e.clone());
                    assert(by_id.contains_key(c) && by_id[c] == e@);
                    assert(fuel > 0);
                    assert(events_view(chain@) =~= events_view(before).push(e@));
                    current = match e.metadata.causation_id {
                        Some(u) => Some(u.0),
                        None => None,
                    };
                    proof {
                        let rest = match e@.metadata.causation_id {
                            Some(u) => chain_from(by_id, u.0, (fuel - 1) as nat),
                            None => Seq::empty(),
                        };
                        assert(chain_from(by_id, c, fuel) == seq![e@] + rest);
                        assert(events_view(chain@) + rest =~= events_view(before) + (seq![e@] + rest));
                        fuel = (fuel - 1) as nat;
                    }
                },
                None => {
                    assert(!by_id.contains_key(c));
                    assert(events_view(chain@) =~= whole);
                    current = None;
                    proof { fuel = 0; }
                    break;
                },
            }
        }
        let ghost forward = chain@;
        let mut reversed: Vec<GraphEvent> = Vec::new();
        while chain.len() > 0
            invariant
                chain@.len() <= forward.len(),
                chain@ == forward.take(chain@.len() as int),
                reversed@.len() == forward.len() - chain@.len(),
                events_view(reversed@) == events_view(forward).skip(chain@.len() as int).reverse(),
            decreases chain@.len(),
        {
            let ghost n = chain@.len() as int;
            let ghost before = reversed@;
            let e = chain.pop().unwrap();
            assert(e == forward[n - 1]);
            reversed.push(e);
            proof {
                let fv = events_view(forward);
                let x = fv.skip(n - 1).reverse();
                assert forall|j: int| 0 <= j < x.len() implies #[trigger] events_view(reversed@)[j] == x[j] by {
                    if j < x.len() - 1 {
                        assert(events_view(reversed@)[j] == events_view(before)[j]);
                        assert(events_view(before)[j] == fv.skip(n).reverse()[j]);
                    }
                }
                assert(events_view(reversed@) =~= x);
            }
        }
        assert(events_view(forward).skip(0) =~= events_view(forward));
        reversed
    }

    fn get_events_in_range(&self, aggregate_id: Uuid, from_version: u64, to_version: u64) -> (r: Vec<GraphEvent>)
        ensures
            events_view(r@) == in_version_range(of_aggregate(self.log(), aggregate_id.0), from_version, to_version),
    {
        let all = self.get_events(aggregate_id);
        let ghost s = events_view(all@);
        let mut r: Vec<GraphEvent> = Vec::new();
        let mut i: usize = 0;
        while i < all.len()
            invariant
                i <= all@.len(),
                s == events_view(all@),
                events_view(r@) == in_version_range(s.take(i as int), from_version, to_version),
            decreases all@.len() - i,
        {
            let ghost before = r@;
            assert(s.take(i + 1).drop_last() =~= s.take(i as int));
            assert(s.take(i + 1).last() == all@[i as int]@);
            let v = all[i].metadata.version;
            if from_version <= v && v <= to_version {
                r.push(all[i].clone());
                assert(events_view(r@) =~= events_view(before).push(all@[i as int]@));
            }
            i = i + 1;
        }
        assert(s.take(all@.len() as int) =~= s);
        r
    }
}

/// Replaying events in two batches gives the aggregate of all of them.
pub proof fn law_replay_batches(a0: AggregateView, a: Seq<EventView>, b: Seq<EventView>)
    ensures
        replayed(a0, a + b) == replayed(replayed(a0, a), b),
    decreases b.len(),
{
    if b.len() == 0 {
        assert(a + b =~= a);
    } else {
        law_replay_batches(a0, a, b.drop_last());
        assert((a + b).drop_last() =~= a + b.drop_last());
        assert((a + b).last() == b.last());
    }
}

/// Reading an aggregate's events after appending gives its earlier events
/// followed by the appended ones, in order.
pub proof fn law_append_then_read(log: Seq<EventView>, appended: Seq<EventView>, aggregate_id: u128)
    ensures
        of_aggregate(log + appended, aggregate_id) == of_aggregate(log, aggregate_id) + of_aggregate(appended, aggregate_id),
    decreases appended.len(),
{
    if appended.len() == 0 {
        assert(log + appended =~= log);
        assert(of_aggregate(log, aggregate_id) + of_aggregate(appended, aggregate_id) =~= of_aggregate(log, aggregate_id));
    } else {
        law_append_then_read(log, appended.drop_last(), aggregate_id);
        assert((log + appended).drop_last() =~= log + appended.drop_last());
        assert((log + appended).last() == appended.last());
        let x = of_aggregate(log, aggregate_id);
        let y = of_aggregate(appended.drop_last(), aggregate_id);
        assert((x + y).push(appended.last()) =~= x + y.push(appended.last()));
    }
}

/// Each event id is stored with an event of that id.
proof fn lemma_latest_by_id_keys(log: Seq<EventView>)
    ensures
        forall|k: u128| #[trigger] latest_by_id(log).contains_key(k) ==> latest_by_id(log)[k].metadata.event_id.0 == k,
    decreases log.len(),
{
    if log.len() > 0 {
        lemma_latest_by_id_keys(log.drop_last());
    }
}

/// The causation chain of an event starts at the event, and each later
/// event in it is the cause of the one before; read backwards (as the store
/// answers it) it is in order of causation, earliest cause first.
pub proof fn law_causation_chain_ordered(log: Seq<EventView>, id: u128)
    requires
        exists|f: nat| chain_ends(latest_by_id(log), id, f),
    ensures
        causation_chain(latest_by_id(log), id).len() > 0 <==> latest_by_id(log).contains_key(id),
        latest_by_id(log).contains_key(id) ==> causation_chain(latest_by_id(log), id)[0].metadata.event_id.0 == id,
        forall|i: int| 0 <= i < causation_chain(latest_by_id(log), id).len() - 1 ==>
            (#[trigger] causation_chain(latest_by_id(log), id)[i]).metadata.causation_id
                == Some(causation_chain(latest_by_id(log), id)[i + 1].metadata.event_id),
{
    let m = latest_by_id(log);
    lemma_latest_by_id_keys(log);
    let f = choose|f: nat| chain_ends(m, id, f);
    lemma_chain_links(m, id, f);
}

/// Each event of a followed chain is caused by the next one.
proof fn lemma_chain_links(m: Map<u128, EventView>, id: u128, f: nat)
    requires
        chain_ends(m, id, f),
        forall|k: u128| #[trigger] m.contains_key(k) ==> m[k].metadata.event_id.0 == k,
    ensures
        chain_from(m, id, f).len() > 0 <==> m.contains_key(id),
        m.contains_key(id) ==> chain_from(m, id, f)[0] == m[id],
        forall|i: int| 0 <= i < chain_from(m, id, f).len() - 1 ==>
            (#[trigger] chain_from(m, id, f)[i]).metadata.causation_id == Some(chain_from(m, id, f)[i + 1].metadata.event_id),
    decreases f,
{
    if f > 0 && m.contains_key(id) {
        match m[id].metadata.causation_id {
            Some(c) => {
                lemma_chain_links(m, c.0, (f - 1) as nat);
                let rest = chain_from(m, c.0, (f - 1) as nat);
                let whole = chain_from(m, id, f);
                assert(whole == seq![m[id]] + rest);
                assert forall|i: int| 0 <= i < whole.len() - 1 implies
                    (#[trigger] whole[i]).metadata.causation_id == Some(whole[i + 1].metadata.event_id) by {
                    if i == 0 {
                        assert(m.contains_key(c.0));
                        assert(rest[0] == m[c.0]);
                        assert(m[c.0].metadata.event_id.0 == c.0);
                    } else {
                        assert(whole[i] == rest[i - 1]);
                        assert(whole[i + 1] == rest[i]);
                    }
                }
            },
            None => {
                assert(chain_from(m, id, f) =~= seq![m[id]]);
            },
        }
    }
}

/// Removing an edge from an aggregate that has one lowers its edge count by
/// one and leaves its node count; removing an edge right after adding one
/// gives back the counts from before.
pub proof fn law_edge_removal_undoes_addition(a: AggregateView, added: EventView, removed: EventView)
    requires
        added.payload is EdgeAdded,
        removed.payload is EdgeRemoved,
    ensures
        a.edge_count > 0 ==> aggregate_step(a, removed).edge_count == a.edge_count - 1,
        aggregate_step(a, removed).node_count == a.node_count,
        aggregate_step(a, added).edge_count == a.edge_count + 1,
        aggregate_step(aggregate_step(a, added), removed).edge_count == a.edge_count,
        aggregate_step(aggregate_step(a, added), removed).node_count == a.node_count,
{
}

} // verus!
