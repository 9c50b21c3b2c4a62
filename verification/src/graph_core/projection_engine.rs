//! The projection engine: builds graph projections by replaying events and
//! keeps them current by applying new ones.

use vstd::prelude::*;
use vstd::string::*;
use std::collections::HashMap;
use vstd::std_specs::hash::spec_keys_iter;
use vstd::std_specs::iter::IteratorSpec;
use crate::graph_core::cim_graph::{GraphEvent, EventData, GraphProjection};
use crate::graph_core::edge::Edge;
use crate::graph_core::graph::{GraphType, GraphMetadata};
use crate::graph_core::node::Node;
use crate::ids::{Uuid, Timestamp, rfc3339_text};
use crate::json::{JsonValue, JsonView, json_view, members_view, str_eq};
use crate::strmap::StrMap;
use crate::text::{texts_view, str_refs_view, remove_all, concat2, join3, clone_texts, without, lemma_take_one_more};

verus! {

broadcast use vstd::std_specs::hash::group_hash_axioms;

/// A graph projection with nodes and edges kept by id.
#[derive(Debug)]
pub struct GenericGraphProjection<N: Node, E: Edge> {
    /// The graph aggregate
    pub aggregate_id: Uuid,
    /// Type of graph
    pub graph_type: GraphType,
    /// Sequence number of the last event applied
    pub version: u64,
    /// Graph metadata
    pub metadata: GraphMetadata,
    /// Nodes by id
    pub nodes: StrMap<N>,
    /// Edges by id
    pub edges: StrMap<E>,
    /// Outgoing neighbors of each node, by node id
    pub adjacency: StrMap<Vec<String>>,
}

/// What applying events can change in a projection.
pub struct ProjectionState<N, E> {
    pub aggregate_id: Uuid,
    pub graph_type: GraphType,
    pub version: u64,
    pub updated_at: Timestamp,
    pub properties: Map<Seq<char>, JsonView>,
    pub nodes: Map<Seq<char>, N>,
    pub edges: Map<Seq<char>, E>,
    pub adjacency: Map<Seq<char>, Seq<Seq<char>>>,
}

/// The content of a JSON-valued map.
pub open spec fn json_map_view(m: StrMap<JsonValue>) -> Map<Seq<char>, JsonView> {
    m@.map_values(|j: JsonValue| json_view(j))
}

/// The content of an adjacency map.
pub open spec fn adjacency_view(m: StrMap<Vec<String>>) -> Map<Seq<char>, Seq<Seq<char>>> {
    m@.map_values(|v: Vec<String>| texts_view(v))
}

impl<N: Node, E: Edge> GenericGraphProjection<N, E> {
    /// What applying events can change in this projection.
    pub open spec fn state(&self) -> ProjectionState<N, E> {
        ProjectionState {
            aggregate_id: self.aggregate_id,
            graph_type: self.graph_type,
            version: self.version,
            updated_at: self.metadata.updated_at,
            properties: json_map_view(self.metadata.properties),
            nodes: self.nodes@,
            edges: self.edges@,
            adjacency: adjacency_view(self.adjacency),
        }
    }
}

/// The graph type an initialization event names; unknown names are generic.
pub open spec fn graph_type_from_name(name: Seq<char>) -> GraphType {
    if name == "ipld"@ {
        GraphType::IpldGraph
    } else if name == "context"@ {
        GraphType::ContextGraph
    } else if name == "workflow"@ {
        GraphType::WorkflowGraph
    } else if name == "concept"@ {
        GraphType::ConceptGraph
    } else if name == "composed"@ {
        GraphType::ComposedGraph
    } else {
        GraphType::Generic
    }
}

/// Whether an edge touches a node.
pub open spec fn touches<E: Edge>(e: E, node_id: Seq<char>) -> bool {
    e.spec_source() == node_id || e.spec_target() == node_id
}

/// The edges that do not touch a node.
pub open spec fn edges_not_touching<E: Edge>(edges: Map<Seq<char>, E>, node_id: Seq<char>) -> Map<Seq<char>, E> {
    Map::new(|k: Seq<char>| edges.contains_key(k) && !touches(edges[k], node_id), |k: Seq<char>| edges[k])
}

/// Each neighbor list without a given node.
pub open spec fn adjacency_without(adj: Map<Seq<char>, Seq<Seq<char>>>, node_id: Seq<char>) -> Map<Seq<char>, Seq<Seq<char>>> {
    adj.map_values(|l: Seq<Seq<char>>| remove_all(l, node_id))
}

/// What one event does to a projection. Objects built from an event list
/// their members by key, as `serde_json` keeps them.
pub open spec fn apply_spec<N, E: Edge>(p: ProjectionState<N, E>, event: GraphEvent) -> ProjectionState<N, E> {
    if event.aggregate_id != p.aggregate_id {
        p
    } else {
        let q = ProjectionState { version: event.sequence, updated_at: event.timestamp, ..p };
        match event.data {
            EventData::GraphInitialized { graph_type, metadata } => ProjectionState {
                graph_type: graph_type_from_name(graph_type@),
                properties: q.properties.union_prefer_right(json_map_view(metadata)),
                ..q
            },
            EventData::NodeAdded { node_id, node_type, data } => ProjectionState {
                adjacency: q.adjacency.insert(node_id@, Seq::empty()),
                properties: q.properties.insert("node_"@ + node_id@,
                    JsonView::Object(seq![("data"@, json_view(data)), ("type"@, JsonView::Str(node_type@))])),
                ..q
            },
            EventData::EdgeAdded { edge_id, source_id, target_id, edge_type, data } => ProjectionState {
                adjacency: if q.adjacency.contains_key(source_id@) {
                    q.adjacency.insert(source_id@, q.adjacency[source_id@].push(target_id@))
                } else {
                    q.adjacency
                },
                properties: q.properties.insert("edge_"@ + edge_id@, JsonView::Object(seq![
                    ("data"@, json_view(data)), ("source"@, JsonView::Str(source_id@)),
                    ("target"@, JsonView::Str(target_id@)), ("type"@, JsonView::Str(edge_type@))])),
                ..q
            },
            EventData::NodeRemoved { node_id } => ProjectionState {
                nodes: q.nodes.remove(node_id@),
                edges: edges_not_touching(q.edges, node_id@),
                adjacency: adjacency_without(q.adjacency.remove(node_id@), node_id@),
                ..q
            },
            EventData::EdgeRemoved { edge_id } => if q.edges.contains_key(edge_id@) {
                let e = q.edges[edge_id@];
                ProjectionState {
                    edges: q.edges.remove(edge_id@),
                    adjacency: if q.adjacency.contains_key(e.spec_source()) {
                        q.adjacency.insert(e.spec_source(), remove_all(q.adjacency[e.spec_source()], e.spec_target()))
                    } else {
                        q.adjacency
                    },
                    ..q
                }
            } else {
                q
            },
            EventData::NodeUpdated { node_id, data } => ProjectionState {
                properties: q.properties.insert("node_"@ + node_id@ + "_updated"@, json_view(data))
                    .insert("node_"@ + node_id@ + "_updated_at"@, JsonView::Str(rfc3339_text(event.timestamp.secs, event.timestamp.nanos))),
                ..q
            },
            EventData::EdgeUpdated { edge_id, data } => ProjectionState {
                properties: q.properties.insert("edge_"@ + edge_id@ + "_updated"@, json_view(data))
                    .insert("edge_"@ + edge_id@ + "_updated_at"@, JsonView::Str(rfc3339_text(event.timestamp.secs, event.timestamp.nanos))),
                ..q
            },
        }
    }
}

/// The left fold of `apply_spec` over events.
pub open spec fn fold_spec<N, E: Edge>(p: ProjectionState<N, E>, events: Seq<GraphEvent>) -> ProjectionState<N, E>
    decreases events.len(),
{
    if events.len() == 0 {
        p
    } else {
        apply_spec(fold_spec(p, events.drop_last()), events.last())
    }
}

/// Removes every edge that touches a node.
pub(crate) fn remove_edges_touching<E: Edge>(edges: &mut StrMap<E>, node_id: &str)
    ensures
        final(edges)@ == edges_not_touching(old(edges)@, node_id@),
{
    proof { use_type_invariant(&*edges); edges.lemma_view(); }
    let ks = edges.keys();
    let ghost old_m = edges@;
    let ghost kl = edges.key_list();
    let mut i: usize = 0;
    while i < ks.len()
        invariant
            i <= ks@.len(),
            ks@.len() == kl.len(),
            forall|j: int| 0 <= j < ks@.len() ==> (#[trigger] ks@[j])@ == kl[j],
            kl.no_duplicates(),
            forall|k: Seq<char>| old_m.contains_key(k) ==> kl.contains(k),
            forall|j: int| 0 <= j < kl.len() ==> old_m.contains_key(#[trigger] kl[j]),
            edges@ == Map::new(
                |k: Seq<char>| old_m.contains_key(k) && !(kl.take(i as int).contains(k) && touches(old_m[k], node_id@)),
                |k: Seq<char>| old_m[k]),
        decreases ks@.len() - i,
    {
        let key = &ks[i];
        let ghost k = key@;
        assert(!kl.take(i as int).contains(k)) by {
            if kl.take(i as int).contains(k) {
                let j = choose|j: int| 0 <= j < i && kl.take(i as int)[j] == k;
                assert(kl[j] == kl[i as int]);
            }
        }
        proof { lemma_take_one_more(kl, i as int); }
        assert(old_m.contains_key(kl[i as int]));
        let hit = match edges.get(key.as_str()) {
            Some(e) => {
                let src = e.source();
                let tgt = e.target();
                str_eq(src.as_str(), node_id) || str_eq(tgt.as_str(), node_id)
            },
            None => false,
        };
        assert(hit == touches(old_m[k], node_id@));
        if hit {
            edges.remove(key.as_str());
        }
        assert(kl.take(i + 1) =~= kl.take(i as int).push(k));
        assert(edges@ =~= Map::new(
            |k2: Seq<char>| old_m.contains_key(k2) && !(kl.take(i + 1).contains(k2) && touches(old_m[k2], node_id@)),
            |k2: Seq<char>| old_m[k2]));
        i = i + 1;
    }
    assert(kl.take(ks@.len() as int) =~= kl);
    assert(edges@ =~= edges_not_touching(old_m, node_id@));
}

/// Removes a node from every neighbor list.
fn remove_from_all_lists(adj: &mut StrMap<Vec<String>>, node_id: &str)
    ensures
        adjacency_view(*final(adj)) == adjacency_without(adjacency_view(*old(adj)), node_id@),
{
    proof { use_type_invariant(&*adj); adj.lemma_view(); }
    let ks = adj.keys();
    let ghost old_m = adjacency_view(*adj);
    let ghost kl = adj.key_list();
    let mut i: usize = 0;
    while i < ks.len()
        invariant
            i <= ks@.len(),
            ks@.len() == kl.len(),
            forall|j: int| 0 <= j < ks@.len() ==> (#[trigger] ks@[j])@ == kl[j],
            kl.no_duplicates(),
            forall|k: Seq<char>| old_m.contains_key(k) ==> kl.contains(k),
            forall|j: int| 0 <= j < kl.len() ==> old_m.contains_key(#[trigger] kl[j]),
            adjacency_view(*adj) == Map::new(
                |k: Seq<char>| old_m.contains_key(k),
                |k: Seq<char>| if kl.take(i as int).contains(k) { remove_all(old_m[k], node_id@) } else { old_m[k] }),
        decreases ks@.len() - i,
    {
        let key = &ks[i];
        let ghost k = key@;
        assert(!kl.take(i as int).contains(k)) by {
            if kl.take(i as int).contains(k) {
                let j = choose|j: int| 0 <= j < i && kl.take(i as int)[j] == k;
                assert(kl[j] == kl[i as int]);
            }
        }
        proof { lemma_take_one_more(kl, i as int); }
        assert(old_m.contains_key(kl[i as int]));
        let ghost prev = *adj;
        assert(k == kl[i as int]);
        assert(adjacency_view(*adj).contains_key(k));
        assert(adj@.contains_key(k));
        let list_ref = adj.get(key.as_str()).unwrap();
        assert(texts_view(*list_ref) == adjacency_view(prev)[k]);
        assert(adjacency_view(prev)[k] == old_m[k]);
        let new_list = without(list_ref, node_id);
        adj.insert(key.clone(), new_list);
        assert(adjacency_view(*adj) =~= adjacency_view(prev).insert(k, remove_all(old_m[k], node_id@)));
        assert(adjacency_view(*adj) =~= Map::new(
            |k2: Seq<char>| old_m.contains_key(k2),
            |k2: Seq<char>| if kl.take(i + 1).contains(k2) { remove_all(old_m[k2], node_id@) } else { old_m[k2] }));
        i = i + 1;
    }
    assert(kl.take(ks@.len() as int) =~= kl);
    assert(adjacency_view(*adj) =~= adjacency_without(old_m, node_id@));
}

/// Fields of the metadata that events never change.
pub open spec fn same_fixed_metadata(a: GraphMetadata, b: GraphMetadata) -> bool {
    &&& a.name == b.name
    &&& a.description == b.description
    &&& a.created_at == b.created_at
    &&& a.version == b.version
}

impl<N: Node, E: Edge> GenericGraphProjection<N, E> {
    /// An empty projection of an aggregate, at version 0.
    pub fn new(aggregate_id: Uuid, graph_type: GraphType) -> (p: Self)
        ensures
            p.aggregate_id == aggregate_id,
            p.graph_type == graph_type,
            p.version == 0,
            p.metadata.name is None,
            p.metadata.description is None,
            p.metadata.version@ == "1.0.0"@,
            p.metadata.created_at == p.metadata.updated_at,
            p.metadata.properties@ == Map::<Seq<char>, JsonValue>::empty(),
            p.nodes@ == Map::<Seq<char>, N>::empty(),
            p.edges@ == Map::<Seq<char>, E>::empty(),
            p.adjacency@ == Map::<Seq<char>, Vec<String>>::empty(),
    {
        GenericGraphProjection {
            aggregate_id,
            graph_type,
            version: 0,
            metadata: GraphMetadata::default(),
            nodes: StrMap::new(),
            edges: StrMap::new(),
            adjacency: StrMap::new(),
        }
    }

    /// All nodes, in the order they were first stored.
    pub fn nodes(&self) -> (r: Vec<&N>)
        ensures
            r@.len() == self.nodes@.len(),
            forall|i: int| 0 <= i < r@.len() ==> *r@[i] == self.nodes.entry_seq()[i].1,
    {
        proof { use_type_invariant(&self.nodes); self.nodes.lemma_view(); }
        let mut r: Vec<&N> = Vec::new();
        let mut i: usize = 0;
        while i < self.nodes.len()
            invariant
                i <= self.nodes.entry_seq().len(),
                r@.len() == i,
                forall|j: int| 0 <= j < i ==> *r@[j] == self.nodes.entry_seq()[j].1,
            decreases self.nodes.entry_seq().len() - i,
        {
            r.push(self.nodes.value_at(i));
            i = i + 1;
        }
        r
    }

    /// All edges, in the order they were first stored.
    pub fn edges(&self) -> (r: Vec<&E>)
        ensures
            r@.len() == self.edges@.len(),
            forall|i: int| 0 <= i < r@.len() ==> *r@[i] == self.edges.entry_seq()[i].1,
    {
        proof { use_type_invariant(&self.edges); self.edges.lemma_view(); }
        let mut r: Vec<&E> = Vec::new();
        let mut i: usize = 0;
        while i < self.edges.len()
            invariant
                i <= self.edges.entry_seq().len(),
                r@.len() == i,
                forall|j: int| 0 <= j < i ==> *r@[j] == self.edges.entry_seq()[j].1,
            decreases self.edges.entry_seq().len() - i,
        {
            r.push(self.edges.value_at(i));
            i = i + 1;
        }
        r
    }

    /// The node with this id.
    pub fn get_node(&self, node_id: &str) -> (r: Option<&N>)
        ensures
            match r {
                Some(n) => self.nodes@.contains_key(node_id@) && *n == self.nodes@[node_id@],
                None => !self.nodes@.contains_key(node_id@),
            },
    {
        self.nodes.get(node_id)
    }

    /// The edge with this id.
    pub fn get_edge(&self, edge_id: &str) -> (r: Option<&E>)
        ensures
            match r {
                Some(e) => self.edges@.contains_key(edge_id@) && *e == self.edges@[edge_id@],
                None => !self.edges@.contains_key(edge_id@),
            },
    {
        self.edges.get(edge_id)
    }

    /// The edges from one node to another, in the order they were first stored.
    pub fn edges_between(&self, from: &str, to: &str) -> (r: Vec<&E>)
        ensures
            r@.map_values(|e: &E| *e) == self.edges.entry_seq().map_values(|en: (String, E)| en.1).filter(
                |e: E| e.spec_source() == from@ && e.spec_target() == to@),
    {
        let ghost all = self.edges.entry_seq().map_values(|en: (String, E)| en.1);
        let ghost pred = |e: E| e.spec_source() == from@ && e.spec_target() == to@;
        let mut r: Vec<&E> = Vec::new();
        let mut i: usize = 0;
        while i < self.edges.len()
            invariant
                i <= self.edges.entry_seq().len(),
                all == self.edges.entry_seq().map_values(|en: (String, E)| en.1),
                pred == (|e: E| e.spec_source() == from@ && e.spec_target() == to@),
                r@.map_values(|e: &E| *e) == all.take(i as int).filter(pred),
            decreases self.edges.entry_seq().len() - i,
        {
            let e = self.edges.value_at(i);
            let ghost before = r@;
            assert(all.take(i + 1).drop_last() =~= all.take(i as int));
            assert(all.take(i + 1).last() == *e);
            proof { all.take(i + 1).filter_lemma(pred); }
            assert(all.take(i + 1).filter(pred) == if pred(*e) {
                all.take(i as int).filter(pred).push(*e)
            } else {
                all.take(i as int).filter(pred)
            }) by {
                reveal(Seq::filter);
            }
            let s = e.source();
            let t = e.target();
            if str_eq(s.as_str(), from) && str_eq(t.as_str(), to) {
                r.push(e);
                assert(r@.map_values(|e: &E| *e) =~= before.map_values(|e: &E| *e).push(*e));
            }
            i = i + 1;
        }
        assert(all.take(self.edges.entry_seq().len() as int) =~= all);
        r
    }

    /// The ids of a node's neighbors, in the order their edges were added;
    /// none for a node that is not tracked.
    pub fn neighbors(&self, node_id: &str) -> (r: Vec<&str>)
        ensures
            self.adjacency@.contains_key(node_id@) ==>
                str_refs_view(r@) == texts_view(self.adjacency@[node_id@]),
            !self.adjacency@.contains_key(node_id@) ==> r@.len() == 0,
    {
        let mut r: Vec<&str> = Vec::new();
        match self.adjacency.get(node_id) {
            Some(list) => {
                let mut i: usize = 0;
                while i < list.len()
                    invariant
                        i <= list@.len(),
                        r@.len() == i,
                        str_refs_view(r@) == texts_view(*list).take(i as int),
                    decreases list@.len() - i,
                {
                    let ghost before = r@;
                    let item: &str = list[i].as_str();
                    r.push(item);
                    assert(item@ == list@[i as int]@);
                    assert forall|j: int| 0 <= j < i + 1 implies
                        #[trigger] str_refs_view(r@)[j] == texts_view(*list).take(i + 1)[j] by {
                        if j < i {
                            assert(str_refs_view(before)[j] == texts_view(*list).take(i as int)[j]);
                        }
                    }
                    assert(str_refs_view(r@) =~= texts_view(*list).take(i + 1));
                    i = i + 1;
                }
                assert(texts_view(*list).take(list@.len() as int) =~= texts_view(*list));
            },
            None => {},
        }
        r
    }
}

impl<N: Node, E: Edge> GraphProjection for GenericGraphProjection<N, E> {
    type Node = N;
    type Edge = E;

    open spec fn spec_aggregate_id(&self) -> Uuid {
        self.aggregate_id
    }

    open spec fn spec_version(&self) -> u64 {
        self.version
    }

    open spec fn spec_has_node(&self, node_id: Seq<char>) -> bool {
        self.nodes@.contains_key(node_id)
    }

    open spec fn spec_has_edge(&self, edge_id: Seq<char>) -> bool {
        self.edges@.contains_key(edge_id)
    }

    open spec fn spec_node_count(&self) -> nat {
        self.nodes@.len()
    }

    open spec fn spec_edge_count(&self) -> nat {
        self.edges@.len()
    }

    fn aggregate_id(&self) -> (r: Uuid) {
        self.aggregate_id
    }

    fn version(&self) -> (r: u64) {
        self.version
    }

    fn get_node(&self, node_id: &str) -> (r: Option<&N>)
        ensures
            r matches Some(n) ==> *n == self.nodes@[node_id@],
    {
        self.nodes.get(node_id)
    }

    fn get_edge(&self, edge_id: &str) -> (r: Option<&E>)
        ensures
            r matches Some(e) ==> *e == self.edges@[edge_id@],
    {
        self.edges.get(edge_id)
    }

    fn nodes(&self) -> (r: Vec<&N>)
        ensures
            forall|i: int| 0 <= i < r@.len() ==> *r@[i] == self.nodes.entry_seq()[i].1,
    {
        GenericGraphProjection::nodes(self)
    }

    fn edges(&self) -> (r: Vec<&E>)
        ensures
            forall|i: int| 0 <= i < r@.len() ==> *r@[i] == self.edges.entry_seq()[i].1,
    {
        GenericGraphProjection::edges(self)
    }

    fn node_count(&self) -> (r: usize) {
        self.nodes.len()
    }

    fn edge_count(&self) -> (r: usize) {
        self.edges.len()
    }

    fn edges_between(&self, from: &str, to: &str) -> (r: Vec<&E>)
        ensures
            r@.map_values(|e: &E| *e) == self.edges.entry_seq().map_values(|en: (String, E)| en.1).filter(
                |e: E| e.spec_source() == from@ && e.spec_target() == to@),
    {
        GenericGraphProjection::edges_between(self, from, to)
    }

    fn neighbors(&self, node_id: &str) -> (r: Vec<&str>)
        ensures
            self.adjacency@.contains_key(node_id@) ==>
                str_refs_view(r@) == texts_view(self.adjacency@[node_id@]),
            !self.adjacency@.contains_key(node_id@) ==> r@.len() == 0,
    {
        GenericGraphProjection::neighbors(self, node_id)
    }
}

/// The state of an empty projection of an aggregate created at `created_at`.
pub open spec fn start_state<N, E>(aggregate_id: Uuid, created_at: Timestamp) -> ProjectionState<N, E> {
    ProjectionState {
        aggregate_id,
        graph_type: GraphType::Generic,
        version: 0,
        updated_at: created_at,
        properties: Map::empty(),
        nodes: Map::empty(),
        edges: Map::empty(),
        adjacency: Map::empty(),
    }
}

/// Stores a property; the content of the properties changes by one key.
fn put_property(props: &mut StrMap<JsonValue>, key: String, value: JsonValue)
    ensures
        json_map_view(*final(props)) == json_map_view(*old(props)).insert(key@, json_view(value)),
{
    let ghost k = key@;
    props.insert(key, value);
    assert(json_map_view(*props) =~= json_map_view(*old(props)).insert(k, json_view(value)));
}

impl<N: Node, E: Edge> GenericGraphProjection<N, E> {
    /// Applies the metadata of an initialization event.
    fn init_graph(&mut self, graph_type: &str, metadata: &StrMap<JsonValue>)
        ensures
            final(self).state() == (ProjectionState {
                graph_type: graph_type_from_name(graph_type@),
                properties: old(self).state().properties.union_prefer_right(json_map_view(*metadata)),
                ..old(self).state()
            }),
            same_fixed_metadata(final(self).metadata, old(self).metadata),
    {
        proof { use_type_invariant(metadata); metadata.lemma_view(); }
        self.graph_type = if str_eq(graph_type, "ipld") {
            GraphType::IpldGraph
        } else if str_eq(graph_type, "context") {
            GraphType::ContextGraph
        } else if str_eq(graph_type, "workflow") {
            GraphType::WorkflowGraph
        } else if str_eq(graph_type, "concept") {
            GraphType::ConceptGraph
        } else if str_eq(graph_type, "composed") {
            GraphType::ComposedGraph
        } else {
            GraphType::Generic
        };
        proof {
            reveal_strlit("ipld");
            reveal_strlit("context");
            reveal_strlit("workflow");
            reveal_strlit("concept");
            reveal_strlit("composed");
        }
        let ghost p0 = json_map_view(self.metadata.properties);
        let ghost md = json_map_view(*metadata);
        let ghost kl = metadata.key_list();
        let mut i: usize = 0;
        while i < metadata.len()
            invariant
                i <= metadata.entry_seq().len(),
                kl == metadata.key_list(),
                kl.len() == metadata.entry_seq().len(),
                md == json_map_view(*metadata),
                forall|j: int| 0 <= j < metadata.entry_seq().len() ==>
                    #[trigger] kl[j] == metadata.entry_seq()[j].0@
                    && metadata@.contains_key(metadata.entry_seq()[j].0@)
                    && metadata@[metadata.entry_seq()[j].0@] == metadata.entry_seq()[j].1,
                json_map_view(self.metadata.properties) == p0.union_prefer_right(
                    Map::new(|k: Seq<char>| kl.take(i as int).contains(k), |k: Seq<char>| md[k])),
                self.graph_type == graph_type_from_name(graph_type@),
                self.aggregate_id == old(self).aggregate_id,
                self.version == old(self).version,
                self.nodes == old(self).nodes,
                self.edges == old(self).edges,
                self.adjacency == old(self).adjacency,
                self.metadata.updated_at == old(self).metadata.updated_at,
                same_fixed_metadata(self.metadata, old(self).metadata),
            decreases metadata.entry_seq().len() - i,
        {
            let key = metadata.key_at(i).clone();
            let value = metadata.value_at(i).clone();
            let ghost k = key@;
            proof { lemma_take_one_more(kl, i as int); }
            assert(kl[i as int] == metadata.entry_seq()[i as int].0@);
            assert(md.contains_key(k) && md[k] == json_view(value));
            put_property(&mut self.metadata.properties, key, value);
            assert(json_map_view(self.metadata.properties) =~= p0.union_prefer_right(
                Map::new(|k2: Seq<char>| kl.take(i + 1).contains(k2), |k2: Seq<char>| md[k2])));
            i = i + 1;
        }
        proof {
            assert(kl.take(kl.len() as int) =~= kl);
            assert forall|k: Seq<char>| kl.contains(k) <==> md.contains_key(k) by {
                if md.contains_key(k) {
                    assert(metadata@.dom().contains(k));
                }
            }
            assert(Map::new(|k: Seq<char>| kl.contains(k), |k: Seq<char>| md[k]) =~= md);
        }
    }

    /// Starts tracking a node and records its type and data.
    fn note_node_added(&mut self, node_id: &str, node_type: &str, data: &JsonValue)
        ensures
            final(self).state() == (ProjectionState {
                adjacency: old(self).state().adjacency.insert(node_id@, Seq::empty()),
                properties: old(self).state().properties.insert("node_"@ + node_id@,
                    JsonView::Object(seq![("data"@, json_view(*data)), ("type"@, JsonView::Str(node_type@))])),
                ..old(self).state()
            }),
            same_fixed_metadata(final(self).metadata, old(self).metadata),
    {
        let ghost adj0 = adjacency_view(self.adjacency);
        let fresh: Vec<String> = Vec::new();
        assert(texts_view(fresh) =~= Seq::<Seq<char>>::empty());
        self.adjacency.insert(String::from_str(node_id), fresh);
        assert(adjacency_view(self.adjacency) =~= adj0.insert(node_id@, Seq::empty()));
        let mut members: Vec<(String, JsonValue)> = Vec::new();
        members.push((String::from_str("data"), data.clone()));
        members.push((String::from_str("type"), JsonValue::from_str(node_type)));
        let obj = JsonValue::object(members);
        proof {
            reveal_strlit("data");
            reveal_strlit("type");
            reveal_strlit("node_");
            assert(members_view(members@) =~= seq![("data"@, json_view(*data)), ("type"@, JsonView::Str(node_type@))]);
        }
        put_property(&mut self.metadata.properties, concat2("node_", node_id), obj);
    }

    /// Adds an edge's target to its source's neighbors (when the source is
    /// tracked) and records the edge's endpoints, type and data.
    fn note_edge_added(&mut self, edge_id: &str, source_id: &str, target_id: &str, edge_type: &str, data: &JsonValue)
        ensures
            final(self).state() == (ProjectionState {
                adjacency: if old(self).state().adjacency.contains_key(source_id@) {
                    old(self).state().adjacency.insert(source_id@, old(self).state().adjacency[source_id@].push(target_id@))
                } else {
                    old(self).state().adjacency
                },
                properties: old(self).state().properties.insert("edge_"@ + edge_id@, JsonView::Object(seq![
                    ("data"@, json_view(*data)), ("source"@, JsonView::Str(source_id@)),
                    ("target"@, JsonView::Str(target_id@)), ("type"@, JsonView::Str(edge_type@))])),
                ..old(self).state()
            }),
            same_fixed_metadata(final(self).metadata, old(self).metadata),
    {
        let ghost adj0 = adjacency_view(self.adjacency);
        let found = match self.adjacency.get(source_id) {
            Some(list) => {
                let mut l = clone_texts(list);
                l.push(String::from_str(target_id));
                Some(l)
            },
            None => None,
        };
        match found {
            Some(l) => {
                let ghost lv = texts_view(l);
                assert(lv =~= adj0[source_id@].push(target_id@));
                self.adjacency.insert(String::from_str(source_id), l);
                assert(adjacency_view(self.adjacency) =~= adj0.insert(source_id@, lv));
            },
            None => {},
        }
        let mut members: Vec<(String, JsonValue)> = Vec::new();
        members.push((String::from_str("data"), data.clone()));
        members.push((String::from_str("source"), JsonValue::from_str(source_id)));
        members.push((String::from_str("target"), JsonValue::from_str(target_id)));
        members.push((String::from_str("type"), JsonValue::from_str(edge_type)));
        let obj = JsonValue::object(members);
        proof {
            reveal_strlit("data");
            reveal_strlit("source");
            reveal_strlit("target");
            reveal_strlit("type");
            reveal_strlit("edge_");
            assert(members_view(members@) =~= seq![
                ("data"@, json_view(*data)), ("source"@, JsonView::Str(source_id@)),
                ("target"@, JsonView::Str(target_id@)), ("type"@, JsonView::Str(edge_type@))]);
        }
        put_property(&mut self.metadata.properties, concat2("edge_", edge_id), obj);
    }

    /// Removes a node, the edges that touch it, its neighbor list and every
    /// mention of it in other neighbor lists.
    fn drop_node(&mut self, node_id: &str)
        ensures
            final(self).state() == (ProjectionState {
                nodes: old(self).state().nodes.remove(node_id@),
                edges: edges_not_touching(old(self).state().edges, node_id@),
                adjacency: adjacency_without(old(self).state().adjacency.remove(node_id@), node_id@),
                ..old(self).state()
            }),
            same_fixed_metadata(final(self).metadata, old(self).metadata),
    {
        self.nodes.remove(node_id);
        remove_edges_touching(&mut self.edges, node_id);
        let ghost adj0 = adjacency_view(self.adjacency);
        self.adjacency.remove(node_id);
        assert(adjacency_view(self.adjacency) =~= adj0.remove(node_id@));
        remove_from_all_lists(&mut self.adjacency, node_id);
    }

    /// Removes an edge, and its target from its source's neighbors.
    fn drop_edge(&mut self, edge_id: &str)
        ensures
            final(self).state() == (if old(self).state().edges.contains_key(edge_id@) {
                let e = old(self).state().edges[edge_id@];
                ProjectionState {
                    edges: old(self).state().edges.remove(edge_id@),
                    adjacency: if old(self).state().adjacency.contains_key(e.spec_source()) {
                        old(self).state().adjacency.insert(e.spec_source(),
                            remove_all(old(self).state().adjacency[e.spec_source()], e.spec_target()))
                    } else {
                        old(self).state().adjacency
                    },
                    ..old(self).state()
                }
            } else {
                old(self).state()
            }),
            same_fixed_metadata(final(self).metadata, old(self).metadata),
    {
        match self.edges.remove(edge_id) {
            Some(edge) => {
                let src = edge.source();
                let tgt = edge.target();
                let ghost adj0 = adjacency_view(self.adjacency);
                let found = match self.adjacency.get(src.as_str()) {
                    Some(list) => {
                        assert(texts_view(*list) == adj0[src@]);
                        Some(without(list, tgt.as_str()))
                    },
                    None => None,
                };
                match found {
                    Some(l) => {
                        let ghost lv = texts_view(l);
                        assert(adj0.contains_key(src@));
                        assert(lv == remove_all(adj0[src@], tgt@));
                        self.adjacency.insert(src, l);
                        assert(adjacency_view(self.adjacency) =~= adj0.insert(edge.spec_source(), lv));
                    },
                    None => {
                        assert(!adj0.contains_key(src@));
                    },
                }
            },
            None => {
                assert(self.edges@ =~= old(self).edges@);
            },
        }
    }

    /// Records a node's new data and the time of the change.
    fn note_node_updated(&mut self, node_id: &str, data: &JsonValue, at: Timestamp)
        ensures
            final(self).state() == (ProjectionState {
                properties: old(self).state().properties.insert("node_"@ + node_id@ + "_updated"@, json_view(*data))
                    .insert("node_"@ + node_id@ + "_updated_at"@, JsonView::Str(rfc3339_text(at.secs, at.nanos))),
                ..old(self).state()
            }),
            same_fixed_metadata(final(self).metadata, old(self).metadata),
    {
        put_property(&mut self.metadata.properties, join3("node_", node_id, "_updated"), data.clone());
        let text = at.to_rfc3339();
        put_property(&mut self.metadata.properties, join3("node_", node_id, "_updated_at"), JsonValue::from_str(text.as_str()));
    }

    /// Records an edge's new data and the time of the change.
    fn note_edge_updated(&mut self, edge_id: &str, data: &JsonValue, at: Timestamp)
        ensures
            final(self).state() == (ProjectionState {
                properties: old(self).state().properties.insert("edge_"@ + edge_id@ + "_updated"@, json_view(*data))
                    .insert("edge_"@ + edge_id@ + "_updated_at"@, JsonView::Str(rfc3339_text(at.secs, at.nanos))),
                ..old(self).state()
            }),
            same_fixed_metadata(final(self).metadata, old(self).metadata),
    {
        put_property(&mut self.metadata.properties, join3("edge_", edge_id, "_updated"), data.clone());
        let text = at.to_rfc3339();
        put_property(&mut self.metadata.properties, join3("edge_", edge_id, "_updated_at"), JsonValue::from_str(text.as_str()));
    }
}

/// Builds and updates generic projections from events.
#[derive(Debug)]
pub struct ProjectionEngine<P: GraphProjection> {
    projection_type: std::marker::PhantomData<P>,
}

impl<P: GraphProjection> ProjectionEngine<P> {
    /// A new engine.
    pub fn new() -> (e: Self) {
        ProjectionEngine { projection_type: std::marker::PhantomData }
    }
}

impl<N: Node, E: Edge> ProjectionEngine<GenericGraphProjection<N, E>> {
    /// Builds the projection of the first event's aggregate by applying all
    /// events in order to an empty generic projection. The stream must not
    /// be empty.
    pub fn project(&self, events: Vec<GraphEvent>) -> (p: GenericGraphProjection<N, E>)
        requires
            events@.len() > 0,
        ensures
            p.state() == fold_spec(start_state::<N, E>(events@[0].aggregate_id, p.metadata.created_at), events@),
            p.metadata.name is None,
            p.metadata.description is None,
            p.metadata.version@ == "1.0.0"@,
    {
        let mut projection: GenericGraphProjection<N, E> = GenericGraphProjection::new(events[0].aggregate_id, GraphType::Generic);
        let ghost start = projection.state();
        assert(start.properties =~= Map::<Seq<char>, JsonView>::empty());
        assert(start.adjacency =~= Map::<Seq<char>, Seq<Seq<char>>>::empty());
        assert(start == start_state::<N, E>(events@[0].aggregate_id, projection.metadata.created_at));
        let ghost created = projection.metadata.created_at;
        let mut i: usize = 0;
        while i < events.len()
            invariant
                i <= events@.len(),
                events@.len() > 0,
                projection.metadata.created_at == created,
                projection.metadata.name is None,
                projection.metadata.description is None,
                projection.metadata.version@ == "1.0.0"@,
                projection.state() == fold_spec(start_state::<N, E>(events@[0].aggregate_id, created), events@.take(i as int)),
            decreases events@.len() - i,
        {
            self.apply(&mut projection, &events[i]);
            assert(events@.take(i + 1).drop_last() =~= events@.take(i as int));
            i = i + 1;
        }
        assert(events@.take(events@.len() as int) =~= events@);
        projection
    }

    /// Applies one event: events of other aggregates are ignored; otherwise
    /// the version and update time follow the event, and its data changes the
    /// projection as `apply_spec` says.
    pub fn apply(&self, projection: &mut GenericGraphProjection<N, E>, event: &GraphEvent)
        ensures
            final(projection).state() == apply_spec(old(projection).state(), *event),
            same_fixed_metadata(final(projection).metadata, old(projection).metadata),
    {
        if event.aggregate_id != projection.aggregate_id {
            return;
        }
        projection.version = event.sequence;
        projection.metadata.updated_at = event.timestamp;
        match &event.data {
            EventData::GraphInitialized { graph_type, metadata } => {
                projection.init_graph(graph_type.as_str(), metadata);
            },
            EventData::NodeAdded { node_id, node_type, data } => {
                projection.note_node_added(node_id.as_str(), node_type.as_str(), data);
            },
            EventData::EdgeAdded { edge_id, source_id, target_id, edge_type, data } => {
                projection.note_edge_added(edge_id.as_str(), source_id.as_str(), target_id.as_str(), edge_type.as_str(), data);
            },
            EventData::NodeRemoved { node_id } => {
                projection.drop_node(node_id.as_str());
            },
            EventData::EdgeRemoved { edge_id } => {
                projection.drop_edge(edge_id.as_str());
            },
            EventData::NodeUpdated { node_id, data } => {
                projection.note_node_updated(node_id.as_str(), data, event.timestamp);
            },
            EventData::EdgeUpdated { edge_id, data } => {
                projection.note_edge_updated(edge_id.as_str(), data, event.timestamp);
            },
        }
    }
}

/// A bounded cache of projections by aggregate id. When full, putting a
/// projection of a new aggregate evicts one cached projection, whichever
/// the underlying hash map yields first.
#[derive(Debug)]
pub struct ProjectionCache<P: GraphProjection> {
    projections: HashMap<u128, P>,
    max_size: usize,
}

impl<P: GraphProjection> ProjectionCache<P> {
    /// The cached projections, by aggregate id.
    pub closed spec fn cached(&self) -> Map<u128, P> {
        self.projections@
    }

    /// The number of projections the cache holds before it evicts.
    pub closed spec fn limit(&self) -> nat {
        self.max_size as nat
    }

    /// An empty cache holding at most `max_size` projections.
    pub fn new(max_size: usize) -> (c: Self)
        ensures
            c.cached() == Map::<u128, P>::empty(),
            c.limit() == max_size,
    {
        ProjectionCache { projections: HashMap::new(), max_size }
    }

    /// The cached projection of an aggregate.
    pub fn get(&self, aggregate_id: &Uuid) -> (r: Option<&P>)
        ensures
            match r {
                Some(p) => self.cached().contains_key(aggregate_id.0) && *p == self.cached()[aggregate_id.0],
                None => !self.cached().contains_key(aggregate_id.0),
            },
    {
        self.projections.get(&aggregate_id.0)
    }

    /// Caches a projection under its aggregate id, replacing an older one of
    /// the same aggregate. When the cache already holds `limit()` or more
    /// projections (and at least one), one cached projection is evicted first.
    pub fn put(&mut self, projection: P)
        ensures
            final(self).limit() == old(self).limit(),
            old(self).cached().len() < old(self).limit() || old(self).cached().len() == 0 ==>
                final(self).cached() == old(self).cached().insert(projection.spec_aggregate_id().0, projection),
            old(self).cached().len() >= old(self).limit() && old(self).cached().len() > 0 ==>
                exists|k: u128| #[trigger] old(self).cached().contains_key(k)
                    && final(self).cached() == old(self).cached().remove(k).insert(projection.spec_aggregate_id().0, projection),
            old(self).cached().len() <= if old(self).limit() == 0 { 1 } else { old(self).limit() } ==>
                final(self).cached().len() <= if final(self).limit() == 0 { 1 } else { final(self).limit() },
    {
        let aggregate_id = projection.aggregate_id();
        let ghost m0 = self.projections@;
        assert(m0.dom().finite());
        if self.projections.len() >= self.max_size {
            let mut first: Option<u128> = None;
            for k in it: self.projections.keys()
                invariant
                    it.seq().unref().to_set() == m0.dom(),
                    first matches Some(f) ==> m0.contains_key(f),
                    first is None ==> it.index() == 0,
                ensures
                    first matches Some(f) ==> m0.contains_key(f),
                    first is None ==> m0.len() == 0,
            {
                proof {
                    assert(it.seq().unref()[it.index()] == *k);
                }
                first = Some(*k);
                break;
            }
            match first {
                Some(k) => {
                    self.projections.remove(&k);
                    let ghost m1 = self.projections@;
                    self.projections.insert(aggregate_id.0, projection);
                    proof {
                        assert(m1 == m0.remove(k));
                        assert(m1.len() == m0.len() - 1);
                        if m1.contains_key(aggregate_id.0) {
                            assert(m1.insert(aggregate_id.0, projection).len() == m1.len());
                        } else {
                            assert(m1.insert(aggregate_id.0, projection).len() == m1.len() + 1);
                        }
                    }
                },
                None => {
                    self.projections.insert(aggregate_id.0, projection);
                },
            }
        } else {
            self.projections.insert(aggregate_id.0, projection);
        }
    }

    /// Drops the cached projection of an aggregate.
    pub fn invalidate(&mut self, aggregate_id: &Uuid)
        ensures
            final(self).cached() == old(self).cached().remove(aggregate_id.0),
            final(self).limit() == old(self).limit(),
    {
        self.projections.remove(&aggregate_id.0);
    }

    /// Drops every cached projection.
    pub fn clear(&mut self)
        ensures
            final(self).cached() == Map::<u128, P>::empty(),
            final(self).limit() == old(self).limit(),
    {
        self.projections.clear();
    }
}

/// Applying events in two batches gives the projection of all of them, so a
/// projection kept current event by event equals one rebuilt from the stream.
pub proof fn law_batches_compose<N, E: Edge>(p: ProjectionState<N, E>, a: Seq<GraphEvent>, b: Seq<GraphEvent>)
    ensures
        fold_spec(p, a + b) == fold_spec(fold_spec(p, a), b),
    decreases b.len(),
{
    if b.len() == 0 {
        assert(a + b =~= a);
    } else {
        law_batches_compose(p, a, b.drop_last());
        assert((a + b).drop_last() =~= a + b.drop_last());
        assert((a + b).last() == b.last());
    }
}

/// Events of other aggregates leave a projection as it is.
pub proof fn law_foreign_events_ignored<N, E: Edge>(p: ProjectionState<N, E>, event: GraphEvent)
    requires
        event.aggregate_id != p.aggregate_id,
    ensures
        apply_spec(p, event) == p,
{
}

/// No occurrence of `x` is left after removing all of them.
pub proof fn lemma_remove_all_removes(s: Seq<Seq<char>>, x: Seq<char>)
    ensures
        !remove_all(s, x).contains(x),
    decreases s.len(),
{
    if s.len() > 0 {
        lemma_remove_all_removes(s.drop_last(), x);
        let r = remove_all(s.drop_last(), x);
        if s.last() != x {
            assert forall|i: int| 0 <= i < r.push(s.last()).len() implies r.push(s.last())[i] != x by {
                if i < r.len() { assert(r.push(s.last())[i] == r[i]); }
            }
        }
    }
}

/// Removing a node removes it, every edge that touches it, its neighbor list,
/// and every mention of it in the other neighbor lists.
pub proof fn law_node_removal_cascades<N, E: Edge>(p: ProjectionState<N, E>, event: GraphEvent, node_id: Seq<char>)
    requires
        event.aggregate_id == p.aggregate_id,
        event.data matches EventData::NodeRemoved { node_id: n } && n@ == node_id,
    ensures
        !apply_spec(p, event).nodes.contains_key(node_id),
        forall|k: Seq<char>| #[trigger] apply_spec(p, event).edges.contains_key(k) ==> !touches(apply_spec(p, event).edges[k], node_id),
        !apply_spec(p, event).adjacency.contains_key(node_id),
        forall|k: Seq<char>| #[trigger] apply_spec(p, event).adjacency.contains_key(k) ==> !apply_spec(p, event).adjacency[k].contains(node_id),
{
    let q = apply_spec(p, event);
    assert forall|k: Seq<char>| #[trigger] q.adjacency.contains_key(k) implies !q.adjacency[k].contains(node_id) by {
        lemma_remove_all_removes(p.adjacency.remove(node_id)[k], node_id);
    }
}

/// Adjacency is directed: adding an edge from `s` to `t` appends `t` to the
/// neighbor list of `s` and leaves every other list as it was; a source
/// without a list gets none.
pub proof fn law_edge_added_is_directed<N, E: Edge>(p: ProjectionState<N, E>, event: GraphEvent, s: Seq<char>, t: Seq<char>)
    requires
        event.aggregate_id == p.aggregate_id,
        event.data matches EventData::EdgeAdded { source_id, target_id, .. } && source_id@ == s && target_id@ == t,
    ensures
        p.adjacency.contains_key(s) ==> apply_spec(p, event).adjacency.contains_key(s)
            && apply_spec(p, event).adjacency[s] == p.adjacency[s].push(t),
        !p.adjacency.contains_key(s) ==> !apply_spec(p, event).adjacency.contains_key(s),
        forall|k: Seq<char>| k != s ==>
            (#[trigger] apply_spec(p, event).adjacency.contains_key(k) <==> p.adjacency.contains_key(k)),
        forall|k: Seq<char>| k != s && p.adjacency.contains_key(k) ==>
            #[trigger] apply_spec(p, event).adjacency[k] == p.adjacency[k],
        apply_spec(p, event).nodes == p.nodes,
        apply_spec(p, event).edges == p.edges,
{
}

} // verus!
