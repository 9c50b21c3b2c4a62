//! An event-emitting graph: nodes and edges by id, where every change is
//! announced to the registered event handlers.
//!
//! Nodes and edges are kept by id in insertion order. Queries that walk the
//! edges of a node give the most recently added edge first.

use vstd::prelude::*;
use vstd::string::*;
use crate::error::{GraphError, Result};
use crate::graph_core::edge::Edge;
use crate::graph_core::event::{EventHandler, GraphEvent};
use crate::graph_core::graph::{GraphId, GraphMetadata, GraphType};
use crate::graph_core::node::Node;
use crate::ids::Timestamp;
use crate::json::str_eq;
use crate::strmap::{StrMap, key_seq};

verus! {

/// Whether an edge starts or ends at a node.
pub open spec fn touches<E: Edge>(e: E, node_id: Seq<char>) -> bool {
    e.spec_source() == node_id || e.spec_target() == node_id
}

/// The edges that `keep` selects, the most recently added first.
pub open spec fn newest_first<E>(es: Seq<E>, keep: spec_fn(E) -> bool) -> Seq<E>
    decreases es.len(),
{
    if es.len() == 0 {
        Seq::empty()
    } else {
        let rest = newest_first(es.drop_first(), keep);
        if keep(es[0]) { rest.push(es[0]) } else { rest }
    }
}

/// Whether an edge leaves `from` and enters `to`, where each given end is
/// checked and an end that is `None` is not.
pub open spec fn joins<E: Edge>(e: E, from: Option<Seq<char>>, to: Option<Seq<char>>) -> bool {
    &&& (from matches Some(f) ==> e.spec_source() == f)
    &&& (to matches Some(t) ==> e.spec_target() == t)
}

/// The edges that join the given ends, the most recently added first.
pub open spec fn selected<E: Edge>(es: Seq<E>, from: Option<Seq<char>>, to: Option<Seq<char>>) -> Seq<E> {
    newest_first(es, |e: E| joins(e, from, to))
}

/// The edges leaving a node, the most recently added first.
pub open spec fn outgoing<E: Edge>(es: Seq<E>, node_id: Seq<char>) -> Seq<E> {
    selected(es, Some(node_id), None)
}

/// The edges entering a node, the most recently added first.
pub open spec fn incoming<E: Edge>(es: Seq<E>, node_id: Seq<char>) -> Seq<E> {
    selected(es, None, Some(node_id))
}

/// The edges from one node to another, the most recently added first.
pub open spec fn connecting<E: Edge>(es: Seq<E>, from: Seq<char>, to: Seq<char>) -> Seq<E> {
    selected(es, Some(from), Some(to))
}

/// The text of an optional text.
pub open spec fn opt_text(s: Option<&str>) -> Option<Seq<char>> {
    match s {
        Some(t) => Some(t@),
        None => None,
    }
}

/// Keeping the values of a filtered list of entries is filtering the values.
proof fn lemma_filter_values<E>(s: Seq<(String, E)>, p: spec_fn(E) -> bool)
    ensures
        s.filter(|x: (String, E)| p(x.1)).map_values(|x: (String, E)| x.1)
            == s.map_values(|x: (String, E)| x.1).filter(p),
    decreases s.len(),
{
    let pe = |x: (String, E)| p(x.1);
    if s.len() > 0 {
        lemma_filter_values(s.drop_last(), p);
        assert(s.drop_last().push(s.last()) =~= s);
        s.drop_last().lemma_filter_push(s.last(), pe);
        let vs = s.map_values(|x: (String, E)| x.1);
        assert(vs.drop_last() =~= s.drop_last().map_values(|x: (String, E)| x.1));
        assert(vs.drop_last().push(vs.last()) =~= vs);
        vs.drop_last().lemma_filter_push(vs.last(), p);
        if p(s.last().1) {
            assert(s.filter(pe).map_values(|x: (String, E)| x.1) =~=
                s.drop_last().filter(pe).map_values(|x: (String, E)| x.1).push(s.last().1));
        }
    } else {
        reveal(Seq::filter);
        assert(s.filter(pe).map_values(|x: (String, E)| x.1) =~= Seq::<E>::empty());
        assert(s.map_values(|x: (String, E)| x.1).filter(p) =~= Seq::<E>::empty());
    }
}

/// What an event announces to the handlers.
pub enum Announcement {
    /// A node was added to a graph
    NodeAdded { graph_id: GraphId, node_id: Seq<char> },
    /// A node was removed from a graph
    NodeRemoved { graph_id: GraphId, node_id: Seq<char> },
    /// An edge was added to a graph
    EdgeAdded { graph_id: GraphId, edge_id: Seq<char>, source: Seq<char>, target: Seq<char> },
    /// An edge was removed from a graph
    EdgeRemoved { graph_id: GraphId, edge_id: Seq<char> },
    /// A graph was emptied
    GraphCleared { graph_id: GraphId },
    /// Any other event
    Other,
}

/// What an event announces.
pub open spec fn announcement(e: GraphEvent) -> Announcement {
    match e {
        GraphEvent::NodeAdded { graph_id, node_id } => Announcement::NodeAdded { graph_id, node_id: node_id@ },
        GraphEvent::NodeRemoved { graph_id, node_id } => Announcement::NodeRemoved { graph_id, node_id: node_id@ },
        GraphEvent::EdgeAdded { graph_id, edge_id, source, target } =>
            Announcement::EdgeAdded { graph_id, edge_id: edge_id@, source: source@, target: target@ },
        GraphEvent::EdgeRemoved { graph_id, edge_id } => Announcement::EdgeRemoved { graph_id, edge_id: edge_id@ },
        GraphEvent::GraphCleared { graph_id } => Announcement::GraphCleared { graph_id },
        _ => Announcement::Other,
    }
}

/// The removals announced when a node goes: one for each edge touching it,
/// in the order the edges were added.
pub open spec fn removal_notices<E: Edge>(g: GraphId, entries: Seq<(Seq<char>, E)>, node_id: Seq<char>) -> Seq<Announcement>
    decreases entries.len(),
{
    if entries.len() == 0 {
        Seq::empty()
    } else {
        let before = removal_notices(g, entries.drop_last(), node_id);
        if touches(entries.last().1, node_id) {
            before.push(Announcement::EdgeRemoved { graph_id: g, edge_id: entries.last().0 })
        } else {
            before
        }
    }
}

/// A graph whose changes are announced as events.
pub struct EventGraph<N: Node, E: Edge> {
    id: GraphId,
    graph_type: GraphType,
    metadata: GraphMetadata,
    nodes: StrMap<N>,
    edges: StrMap<E>,
    event_handlers: Vec<Box<dyn EventHandler>>,
    announced: Ghost<Seq<Announcement>>,
}

impl<N: Node, E: Edge> EventGraph<N, E> {
    /// The nodes, by id.
    pub closed spec fn node_map(&self) -> Map<Seq<char>, N> {
        self.nodes@
    }

    /// The edges, by id.
    pub closed spec fn edge_map(&self) -> Map<Seq<char>, E> {
        self.edges@
    }

    /// The edges in the order they were added.
    pub closed spec fn edge_seq(&self) -> Seq<E> {
        self.edges.entry_seq().map_values(|e: (String, E)| e.1)
    }

    /// The graph's id.
    pub closed spec fn spec_id(&self) -> GraphId {
        self.id
    }

    /// The graph's type.
    pub closed spec fn spec_graph_type(&self) -> GraphType {
        self.graph_type
    }

    /// The graph's metadata.
    pub closed spec fn spec_metadata(&self) -> GraphMetadata {
        self.metadata
    }

    /// Every announcement handed to all handlers so far, in order.
    pub closed spec fn announcements(&self) -> Seq<Announcement> {
        self.announced@
    }

    /// The edges with the ids they are kept under, in the order they were added.
    pub closed spec fn edge_entries(&self) -> Seq<(Seq<char>, E)> {
        self.edges.entry_seq().map_values(|e: (String, E)| (e.0@, e.1))
    }

    /// The registered event handlers, in the order they were added.
    pub closed spec fn handlers(&self) -> Seq<Box<dyn EventHandler>> {
        self.event_handlers@
    }

    /// A new, empty graph of the given type, with a fresh id, default
    /// metadata and no handlers.
    pub fn new(graph_type: GraphType) -> (g: Self)
        ensures
            g.spec_graph_type() == graph_type,
            g.node_map() == Map::<Seq<char>, N>::empty(),
            g.edge_map() == Map::<Seq<char>, E>::empty(),
            g.spec_metadata().name is None,
            g.spec_metadata().description is None,
            g.spec_metadata().version@ == "1.0.0"@,
            g.spec_metadata().properties@ == Map::<Seq<char>, crate::json::JsonValue>::empty(),
            g.edge_seq().len() == 0,
            g.announcements() == Seq::<Announcement>::empty(),
            g.wf(),
    {
        let g = EventGraph {
            id: GraphId::new(),
            graph_type,
            metadata: GraphMetadata::default(),
            nodes: StrMap::new(),
            edges: StrMap::new(),
            event_handlers: Vec::new(),
            announced: Ghost(Seq::empty()),
        };
        assert(g.edges.entry_seq().map_values(|e: (String, E)| e.1) =~= Seq::<E>::empty());
        g
    }

    /// Registers an event handler; it receives every later event.
    pub fn add_handler(&mut self, handler: Box<dyn EventHandler>)
        ensures
            final(self).handlers() == old(self).handlers().push(handler),
            final(self).handlers().len() == old(self).handlers().len() + 1,
            final(self).node_map() == old(self).node_map(),
            final(self).edge_map() == old(self).edge_map(),
            final(self).edge_seq() == old(self).edge_seq(),
            final(self).spec_id() == old(self).spec_id(),
            final(self).spec_graph_type() == old(self).spec_graph_type(),
            final(self).spec_metadata() == old(self).spec_metadata(),
            final(self).announcements() == old(self).announcements(),
            old(self).wf() ==> final(self).wf(),
    {
        proof { vstd::seq::axiom_seq_push_len(self.event_handlers@, handler); }
        self.event_handlers.push(handler);
    }

    /// Hands an event to every handler, in the order they were registered.
    fn emit_event(&mut self, event: GraphEvent)
        ensures
            final(self).announced@ == old(self).announced@.push(announcement(event)),
            final(self).nodes == old(self).nodes,
            final(self).edges == old(self).edges,
            final(self).metadata == old(self).metadata,
            final(self).id == old(self).id,
            final(self).graph_type == old(self).graph_type,
            final(self).event_handlers == old(self).event_handlers,
    {
        let mut i: usize = 0;
        while i < self.event_handlers.len()
            invariant
                i <= self.event_handlers@.len(),
            decreases self.event_handlers@.len() - i,
        {
            self.event_handlers[i].handle_event(&event);
            i = i + 1;
        }
        self.announced = Ghost(self.announced@.push(announcement(event)));
    }

    /// Adds a node. A node with the same id already present is refused.
    pub fn add_node(&mut self, node: N) -> (r: Result<String>)
        ensures
            old(self).node_map().contains_key(node.spec_id()) ==> {
                &&& r matches Err(GraphError::DuplicateNode(s)) && s@ == node.spec_id()
                &&& final(self).node_map() == old(self).node_map()
                &&& final(self).spec_metadata() == old(self).spec_metadata()
                &&& final(self).announcements() == old(self).announcements()
            },
            !old(self).node_map().contains_key(node.spec_id()) ==> {
                &&& r matches Ok(s) && s@ == node.spec_id()
                &&& final(self).node_map() == old(self).node_map().insert(node.spec_id(), node)
                &&& final(self).spec_metadata() == (GraphMetadata { updated_at: final(self).spec_metadata().updated_at, ..old(self).spec_metadata() })
                &&& final(self).announcements() == old(self).announcements().push(
                        Announcement::NodeAdded { graph_id: old(self).spec_id(), node_id: node.spec_id() })
            },
            final(self).handlers() == old(self).handlers(),
            final(self).edge_map() == old(self).edge_map(),
            final(self).edge_seq() == old(self).edge_seq(),
            final(self).spec_id() == old(self).spec_id(),
            final(self).spec_graph_type() == old(self).spec_graph_type(),
            old(self).wf() ==> final(self).wf(),
    {
        let node_id = node.id();
        if self.nodes.contains_key(node_id.as_str()) {
            return Err(GraphError::DuplicateNode(node_id));
        }
        self.nodes.insert(node_id.clone(), node);
        self.metadata.updated_at = Timestamp::now();
        self.emit_event(GraphEvent::NodeAdded { graph_id: self.id, node_id: node_id.clone() });
        Ok(node_id)
    }
}


impl<N: Node, E: Edge> EventGraph<N, E> {
    /// Each node and edge is kept under its own id, and every edge joins
    /// two nodes of the graph.
    pub closed spec fn wf(&self) -> bool {
        &&& forall|k: Seq<char>| #[trigger] self.nodes@.contains_key(k) ==> self.nodes@[k].spec_id() == k
        &&& forall|k: Seq<char>| #[trigger] self.edges@.contains_key(k) ==> {
            &&& self.edges@[k].spec_id() == k
            &&& self.nodes@.contains_key(self.edges@[k].spec_source())
            &&& self.nodes@.contains_key(self.edges@[k].spec_target())
        }
    }

    /// The graph's id.
    pub fn id(&self) -> (g: &GraphId)
        ensures
            *g == self.spec_id(),
    {
        &self.id
    }

    /// The graph's type.
    pub fn graph_type(&self) -> (t: GraphType)
        ensures
            t == self.spec_graph_type(),
    {
        self.graph_type
    }

    /// The graph's metadata.
    pub fn metadata(&self) -> (m: &GraphMetadata)
        ensures
            *m == self.spec_metadata(),
    {
        &self.metadata
    }

    /// The node with the given id, if there is one.
    pub fn get_node(&self, node_id: &str) -> (r: Option<&N>)
        ensures
            match r {
                Some(n) => self.node_map().contains_key(node_id@) && *n == self.node_map()[node_id@],
                None => !self.node_map().contains_key(node_id@),
            },
    {
        self.nodes.get(node_id)
    }

    /// The edge with the given id, if there is one.
    pub fn get_edge(&self, edge_id: &str) -> (r: Option<&E>)
        ensures
            match r {
                Some(e) => self.edge_map().contains_key(edge_id@) && *e == self.edge_map()[edge_id@],
                None => !self.edge_map().contains_key(edge_id@),
            },
    {
        self.edges.get(edge_id)
    }

    /// Whether a node with the given id is present.
    pub fn contains_node(&self, node_id: &str) -> (b: bool)
        ensures
            b == self.node_map().contains_key(node_id@),
    {
        self.nodes.contains_key(node_id)
    }

    /// Whether an edge with the given id is present.
    pub fn contains_edge(&self, edge_id: &str) -> (b: bool)
        ensures
            b == self.edge_map().contains_key(edge_id@),
    {
        self.edges.contains_key(edge_id)
    }

    /// The number of nodes.
    pub fn node_count(&self) -> (n: usize)
        ensures
            n == self.node_map().len(),
    {
        self.nodes.len()
    }

    /// The number of edges.
    pub fn edge_count(&self) -> (n: usize)
        ensures
            n == self.edge_map().len(),
            n == self.edge_seq().len(),
    {
        self.edges.len()
    }

    /// The ids of all nodes, each once.
    pub fn node_ids(&self) -> (ids: Vec<String>)
        ensures
            ids@.len() == self.node_map().len(),
            forall|i: int| 0 <= i < ids@.len() ==> self.node_map().contains_key(#[trigger] ids@[i]@),
            forall|k: Seq<char>| #[trigger] self.node_map().contains_key(k) ==> exists|i: int| 0 <= i < ids@.len() && ids@[i]@ == k,
    {
        proof { use_type_invariant(&self.nodes); self.nodes.lemma_view(); }
        let ids = self.nodes.keys();
        proof {
            assert forall|i: int| 0 <= i < ids@.len() implies self.node_map().contains_key(#[trigger] ids@[i]@) by {
                assert(self.nodes.key_list()[i] == self.nodes.entry_seq()[i].0@);
            }
            assert forall|k: Seq<char>| #[trigger] self.node_map().contains_key(k) implies exists|i: int| 0 <= i < ids@.len() && ids@[i]@ == k by {
                let i = choose|i: int| 0 <= i < self.nodes.entry_seq().len() && self.nodes.entry_seq()[i].0@ == k;
                assert(ids@[i]@ == self.nodes.key_list()[i]);
            }
        }
        ids
    }

    /// The ids of all edges, in the order the edges were added.
    pub fn edge_ids(&self) -> (ids: Vec<String>)
        ensures
            ids@.len() == self.edge_seq().len(),
            self.wf() ==> forall|i: int| 0 <= i < ids@.len() ==> (#[trigger] ids@[i])@ == self.edge_seq()[i].spec_id(),
    {
        proof { use_type_invariant(&self.edges); self.edges.lemma_view(); }
        let ids = self.edges.keys();
        proof {
            if self.wf() {
                assert forall|i: int| 0 <= i < ids@.len() implies (#[trigger] ids@[i])@ == self.edge_seq()[i].spec_id() by {
                    assert(self.edges.key_list()[i] == self.edges.entry_seq()[i].0@);
                    assert(self.edges@.contains_key(self.edges.entry_seq()[i].0@));
                }
            }
        }
        ids
    }
}

impl<N: Node, E: Edge> EventGraph<N, E> {
    /// Adds an edge between two present nodes. An edge with the same id
    /// already present is refused first, then a missing source, then a
    /// missing target.
    pub fn add_edge(&mut self, edge: E) -> (r: Result<String>)
        ensures
            old(self).edge_map().contains_key(edge.spec_id()) ==>
                (r matches Err(GraphError::DuplicateEdge { from, to })
                    && from@ == edge.spec_source() && to@ == edge.spec_target()),
            !old(self).edge_map().contains_key(edge.spec_id()) && !old(self).node_map().contains_key(edge.spec_source()) ==>
                (r matches Err(GraphError::NodeNotFound(s)) && s@ == edge.spec_source()),
            !old(self).edge_map().contains_key(edge.spec_id()) && old(self).node_map().contains_key(edge.spec_source())
                && !old(self).node_map().contains_key(edge.spec_target()) ==>
                (r matches Err(GraphError::NodeNotFound(s)) && s@ == edge.spec_target()),
            !old(self).edge_map().contains_key(edge.spec_id()) && old(self).node_map().contains_key(edge.spec_source())
                && old(self).node_map().contains_key(edge.spec_target()) ==> r is Ok,
            r is Err ==> {
                &&& final(self).edge_map() == old(self).edge_map()
                &&& final(self).edge_seq() == old(self).edge_seq()
                &&& final(self).spec_metadata() == old(self).spec_metadata()
                &&& final(self).announcements() == old(self).announcements()
            },
            r is Ok ==> {
                &&& !old(self).edge_map().contains_key(edge.spec_id())
                &&& old(self).node_map().contains_key(edge.spec_source())
                &&& old(self).node_map().contains_key(edge.spec_target())
                &&& r->Ok_0@ == edge.spec_id()
                &&& final(self).edge_map() == old(self).edge_map().insert(edge.spec_id(), edge)
                &&& final(self).edge_seq() == old(self).edge_seq().push(edge)
                &&& final(self).spec_metadata() == (GraphMetadata { updated_at: final(self).spec_metadata().updated_at, ..old(self).spec_metadata() })
                &&& final(self).announcements() == old(self).announcements().push(Announcement::EdgeAdded {
                        graph_id: old(self).spec_id(), edge_id: edge.spec_id(), source: edge.spec_source(), target: edge.spec_target() })
            },
            final(self).node_map() == old(self).node_map(),
            final(self).handlers() == old(self).handlers(),
            final(self).spec_id() == old(self).spec_id(),
            final(self).spec_graph_type() == old(self).spec_graph_type(),
            old(self).wf() ==> final(self).wf(),
    {
        let edge_id = edge.id();
        let source_id = edge.source();
        let target_id = edge.target();
        if self.edges.contains_key(edge_id.as_str()) {
            return Err(GraphError::DuplicateEdge { from: source_id, to: target_id });
        }
        if !self.nodes.contains_key(source_id.as_str()) {
            return Err(GraphError::NodeNotFound(source_id));
        }
        if !self.nodes.contains_key(target_id.as_str()) {
            return Err(GraphError::NodeNotFound(target_id));
        }
        let ghost before = self.edges.entry_seq();
        self.edges.insert(edge_id.clone(), edge);
        assert(self.edges.entry_seq().map_values(|e: (String, E)| e.1)
            =~= before.map_values(|e: (String, E)| e.1).push(edge));
        self.metadata.updated_at = Timestamp::now();
        self.emit_event(GraphEvent::EdgeAdded { graph_id: self.id, edge_id: edge_id.clone(), source: source_id, target: target_id });
        Ok(edge_id)
    }

    /// Removes an edge, giving it back.
    pub fn remove_edge(&mut self, edge_id: &str) -> (r: Result<E>)
        ensures
            !old(self).edge_map().contains_key(edge_id@) ==> {
                &&& r matches Err(GraphError::EdgeNotFound(s)) && s@ == edge_id@
                &&& final(self).edge_map() == old(self).edge_map()
                &&& final(self).edge_seq() == old(self).edge_seq()
                &&& final(self).spec_metadata() == old(self).spec_metadata()
                &&& final(self).announcements() == old(self).announcements()
            },
            old(self).edge_map().contains_key(edge_id@) ==> {
                &&& r matches Ok(e) && e == old(self).edge_map()[edge_id@]
                &&& final(self).edge_map() == old(self).edge_map().remove(edge_id@)
                &&& exists|i: int| 0 <= i < old(self).edge_seq().len() && old(self).edge_seq()[i] == r->Ok_0
                    && final(self).edge_seq() == old(self).edge_seq().remove(i)
                &&& final(self).spec_metadata() == (GraphMetadata { updated_at: final(self).spec_metadata().updated_at, ..old(self).spec_metadata() })
                &&& final(self).announcements() == old(self).announcements().push(
                        Announcement::EdgeRemoved { graph_id: old(self).spec_id(), edge_id: edge_id@ })
            },
            final(self).node_map() == old(self).node_map(),
            final(self).handlers() == old(self).handlers(),
            final(self).spec_id() == old(self).spec_id(),
            final(self).spec_graph_type() == old(self).spec_graph_type(),
            old(self).wf() ==> final(self).wf(),
    {
        let ghost before = self.edges.entry_seq();
        proof { use_type_invariant(&self.edges); self.edges.lemma_view(); }
        match self.edges.remove(edge_id) {
            None => Err(GraphError::EdgeNotFound(String::from_str(edge_id))),
            Some(edge) => {
                proof {
                    let i = choose|i: int| 0 <= i < before.len() && before[i].0@ == edge_id@
                        && self.edges.entry_seq() == before.remove(i);
                    use_type_invariant(&self.edges);
                    assert(self.edges.entry_seq().map_values(|e: (String, E)| e.1)
                        =~= before.map_values(|e: (String, E)| e.1).remove(i));
                    assert(key_seq(before)[i] == before[i].0@);
                    assert(before[i].1 == edge);
                    assert(old(self).edge_seq()[i] == edge);
                    assert(self.edge_seq() == old(self).edge_seq().remove(i));
                }
                self.metadata.updated_at = Timestamp::now();
                self.emit_event(GraphEvent::EdgeRemoved { graph_id: self.id, edge_id: String::from_str(edge_id) });
                Ok(edge)
            },
        }
    }
}

impl<N: Node, E: Edge> EventGraph<N, E> {
    /// The edges joining the given ends, the most recently added first.
    fn select(&self, from: Option<&str>, to: Option<&str>) -> (r: Vec<&E>)
        ensures
            r@.map_values(|e: &E| *e) == selected(self.edge_seq(), opt_text(from), opt_text(to)),
    {
        let ghost es = self.edge_seq();
        let ghost keep = |e: E| joins(e, opt_text(from), opt_text(to));
        let n = self.edges.len();
        let mut r: Vec<&E> = Vec::new();
        let mut i: usize = n;
        assert(es.subrange(n as int, n as int) =~= Seq::<E>::empty());
        while i > 0
            invariant
                i <= n,
                n == es.len(),
                n == self.edges.entry_seq().len(),
                es == self.edge_seq(),
                keep == (|e: E| joins(e, opt_text(from), opt_text(to))),
                r@.map_values(|e: &E| *e) == newest_first(es.subrange(i as int, n as int), keep),
            decreases i,
        {
            i = i - 1;
            let e = self.edges.value_at(i);
            let src = e.source();
            let tgt = e.target();
            let ok_from = match from {
                Some(f) => str_eq(src.as_str(), f),
                None => true,
            };
            let ok_to = match to {
                Some(t) => str_eq(tgt.as_str(), t),
                None => true,
            };
            proof {
                assert(ok_from == (opt_text(from) matches Some(f) ==> e.spec_source() == f));
                assert(ok_to == (opt_text(to) matches Some(t) ==> e.spec_target() == t));
                let sub = es.subrange(i as int, n as int);
                assert(sub.drop_first() =~= es.subrange(i + 1, n as int));
                assert(sub[0] == *e);
                assert((ok_from && ok_to) == keep(*e));
            }
            let ghost before = r@;
            if ok_from && ok_to {
                r.push(e);
                assert(r@.map_values(|e: &E| *e) =~= before.map_values(|e: &E| *e).push(*e));
            }
        }
        assert(es.subrange(0, n as int) =~= es);
        r
    }

    /// The edges from `source` to `target`, the most recently added first;
    /// none when either node is missing.
    pub fn edges_between(&self, source: &str, target: &str) -> (r: Vec<&E>)
        ensures
            (self.node_map().contains_key(source@) && self.node_map().contains_key(target@)) ==>
                r@.map_values(|e: &E| *e) == connecting(self.edge_seq(), source@, target@),
            !(self.node_map().contains_key(source@) && self.node_map().contains_key(target@)) ==> r@.len() == 0,
    {
        if !self.nodes.contains_key(source) || !self.nodes.contains_key(target) {
            return Vec::new();
        }
        self.select(Some(source), Some(target))
    }

    /// The ids of the targets of the edges leaving a node, the most recently
    /// added edge first.
    pub fn neighbors(&self, node_id: &str) -> (r: Result<Vec<String>>)
        ensures
            !self.node_map().contains_key(node_id@) ==> (r matches Err(GraphError::NodeNotFound(s)) && s@ == node_id@),
            self.node_map().contains_key(node_id@) ==> (r matches Ok(ids)
                && ids@.map_values(|s: String| s@) == outgoing(self.edge_seq(), node_id@).map_values(|e: E| e.spec_target())),
    {
        if !self.nodes.contains_key(node_id) {
            return Err(GraphError::NodeNotFound(String::from_str(node_id)));
        }
        let edges = self.select(Some(node_id), None);
        let mut ids: Vec<String> = Vec::new();
        let mut i: usize = 0;
        while i < edges.len()
            invariant
                i <= edges@.len(),
                ids@.len() == i,
                forall|j: int| 0 <= j < i ==> (#[trigger] ids@[j])@ == edges@[j].spec_target(),
            decreases edges@.len() - i,
        {
            let t = edges[i].target();
            ids.push(t);
            i = i + 1;
        }
        proof {
            let want = outgoing(self.edge_seq(), node_id@).map_values(|e: E| e.spec_target());
            let got = ids@.map_values(|s: String| s@);
            assert forall|j: int| 0 <= j < ids@.len() implies #[trigger] got[j] == want[j] by {
                assert(edges@.map_values(|e: &E| *e)[j] == *edges@[j]);
            }
            assert(got =~= want);
        }
        Ok(ids)
    }

    /// The ids of the sources of the edges entering a node, the most
    /// recently added edge first.
    pub fn predecessors(&self, node_id: &str) -> (r: Result<Vec<String>>)
        ensures
            !self.node_map().contains_key(node_id@) ==> (r matches Err(GraphError::NodeNotFound(s)) && s@ == node_id@),
            self.node_map().contains_key(node_id@) ==> (r matches Ok(ids)
                && ids@.map_values(|s: String| s@) == incoming(self.edge_seq(), node_id@).map_values(|e: E| e.spec_source())),
    {
        if !self.nodes.contains_key(node_id) {
            return Err(GraphError::NodeNotFound(String::from_str(node_id)));
        }
        let edges = self.select(None, Some(node_id));
        let mut ids: Vec<String> = Vec::new();
        let mut i: usize = 0;
        while i < edges.len()
            invariant
                i <= edges@.len(),
                ids@.len() == i,
                forall|j: int| 0 <= j < i ==> (#[trigger] ids@[j])@ == edges@[j].spec_source(),
            decreases edges@.len() - i,
        {
            let t = edges[i].source();
            ids.push(t);
            i = i + 1;
        }
        proof {
            let want = incoming(self.edge_seq(), node_id@).map_values(|e: E| e.spec_source());
            let got = ids@.map_values(|s: String| s@);
            assert forall|j: int| 0 <= j < ids@.len() implies #[trigger] got[j] == want[j] by {
                assert(edges@.map_values(|e: &E| *e)[j] == *edges@[j]);
            }
            assert(got =~= want);
        }
        Ok(ids)
    }

    /// The ids of the edges leaving a node, the most recently added first.
    pub fn edges_from(&self, node_id: &str) -> (r: Result<Vec<String>>)
        ensures
            !self.node_map().contains_key(node_id@) ==> (r matches Err(GraphError::NodeNotFound(s)) && s@ == node_id@),
            self.node_map().contains_key(node_id@) ==> (r matches Ok(ids)
                && ids@.map_values(|s: String| s@) == outgoing(self.edge_seq(), node_id@).map_values(|e: E| e.spec_id())),
    {
        if !self.nodes.contains_key(node_id) {
            return Err(GraphError::NodeNotFound(String::from_str(node_id)));
        }
        let edges = self.select(Some(node_id), None);
        let mut ids: Vec<String> = Vec::new();
        let mut i: usize = 0;
        while i < edges.len()
            invariant
                i <= edges@.len(),
                ids@.len() == i,
                forall|j: int| 0 <= j < i ==> (#[trigger] ids@[j])@ == edges@[j].spec_id(),
            decreases edges@.len() - i,
        {
            let t = edges[i].id();
            ids.push(t);
            i = i + 1;
        }
        proof {
            let want = outgoing(self.edge_seq(), node_id@).map_values(|e: E| e.spec_id());
            let got = ids@.map_values(|s: String| s@);
            assert forall|j: int| 0 <= j < ids@.len() implies #[trigger] got[j] == want[j] by {
                assert(edges@.map_values(|e: &E| *e)[j] == *edges@[j]);
            }
            assert(got =~= want);
        }
        Ok(ids)
    }

    /// The number of edges leaving a node.
    pub fn degree(&self, node_id: &str) -> (r: Result<usize>)
        ensures
            !self.node_map().contains_key(node_id@) ==> (r matches Err(GraphError::NodeNotFound(s)) && s@ == node_id@),
            self.node_map().contains_key(node_id@) ==> (r matches Ok(n) && n == outgoing(self.edge_seq(), node_id@).len()),
    {
        if !self.nodes.contains_key(node_id) {
            return Err(GraphError::NodeNotFound(String::from_str(node_id)));
        }
        let edges = self.select(Some(node_id), None);
        assert(edges@.map_values(|e: &E| *e).len() == edges@.len());
        Ok(edges.len())
    }

    /// The number of edges leaving a node plus the number entering it (an
    /// edge from the node to itself counts twice).
    pub fn total_degree(&self, node_id: &str) -> (r: Result<usize>)
        requires
            outgoing(self.edge_seq(), node_id@).len() + incoming(self.edge_seq(), node_id@).len() <= usize::MAX,
        ensures
            !self.node_map().contains_key(node_id@) ==> (r matches Err(GraphError::NodeNotFound(s)) && s@ == node_id@),
            self.node_map().contains_key(node_id@) ==> (r matches Ok(n)
                && n == outgoing(self.edge_seq(), node_id@).len() + incoming(self.edge_seq(), node_id@).len()),
    {
        if !self.nodes.contains_key(node_id) {
            return Err(GraphError::NodeNotFound(String::from_str(node_id)));
        }
        let out_edges = self.select(Some(node_id), None);
        let in_edges = self.select(None, Some(node_id));
        assert(out_edges@.map_values(|e: &E| *e).len() == out_edges@.len());
        assert(in_edges@.map_values(|e: &E| *e).len() == in_edges@.len());
        proof { lemma_selected_len(self.edge_seq(), Some(node_id@), None);
                lemma_selected_len(self.edge_seq(), None, Some(node_id@)); }
        Ok(out_edges.len() + in_edges.len())
    }
}

/// No more edges are selected than there are.
pub proof fn lemma_selected_len<E: Edge>(es: Seq<E>, from: Option<Seq<char>>, to: Option<Seq<char>>)
    ensures
        selected(es, from, to).len() <= es.len(),
    decreases es.len(),
{
    lemma_newest_first_len(es, |e: E| joins(e, from, to));
}

/// Selecting never yields more items than there are.
proof fn lemma_newest_first_len<E>(es: Seq<E>, keep: spec_fn(E) -> bool)
    ensures
        newest_first(es, keep).len() <= es.len(),
    decreases es.len(),
{
    if es.len() > 0 {
        lemma_newest_first_len(es.drop_first(), keep);
    }
}

impl<N: Node, E: Edge> EventGraph<N, E> {
    /// Removes a node and every edge that starts or ends at it, giving the
    /// node back. The removal of each edge is announced before the removal
    /// of the node.
    pub fn remove_node(&mut self, node_id: &str) -> (r: Result<N>)
        ensures
            !old(self).node_map().contains_key(node_id@) ==> {
                &&& r matches Err(GraphError::NodeNotFound(s)) && s@ == node_id@
                &&& final(self).node_map() == old(self).node_map()
                &&& final(self).edge_map() == old(self).edge_map()
                &&& final(self).edge_seq() == old(self).edge_seq()
                &&& final(self).spec_metadata() == old(self).spec_metadata()
                &&& final(self).announcements() == old(self).announcements()
            },
            old(self).node_map().contains_key(node_id@) ==> {
                &&& r matches Ok(n) && n == old(self).node_map()[node_id@]
                &&& final(self).announcements() == old(self).announcements()
                        + removal_notices(old(self).spec_id(), old(self).edge_entries(), node_id@)
                        + seq![Announcement::NodeRemoved { graph_id: old(self).spec_id(), node_id: node_id@ }]
                &&& final(self).spec_metadata() == (GraphMetadata { updated_at: final(self).spec_metadata().updated_at, ..old(self).spec_metadata() })
                &&& final(self).node_map() == old(self).node_map().remove(node_id@)
                &&& final(self).edge_seq() == old(self).edge_seq().filter(|e: E| !touches(e, node_id@))
                &&& forall|k: Seq<char>| #[trigger] final(self).edge_map().contains_key(k) <==>
                        (old(self).edge_map().contains_key(k) && !touches(old(self).edge_map()[k], node_id@))
                &&& forall|k: Seq<char>| #[trigger] final(self).edge_map().contains_key(k) ==>
                        final(self).edge_map()[k] == old(self).edge_map()[k]
            },
            final(self).spec_id() == old(self).spec_id(),
            final(self).spec_graph_type() == old(self).spec_graph_type(),
            final(self).handlers() == old(self).handlers(),
            old(self).wf() ==> final(self).wf(),
    {
        if !self.nodes.contains_key(node_id) {
            return Err(GraphError::NodeNotFound(String::from_str(node_id)));
        }
        let ghost keep = |x: (String, E)| !touches(x.1, node_id@);
        let mut taken: StrMap<E> = StrMap::new();
        std::mem::swap(&mut taken, &mut self.edges);
        proof { use_type_invariant(&taken); taken.lemma_view(); }
        let ghost old_map = taken@;
        let ghost ents = taken.entry_seq();
        let ghost ev = ents.map_values(|e: (String, E)| (e.0@, e.1));
        let ghost gid = self.id;
        let mut rest = taken.into_entries();
        let mut kept: StrMap<E> = StrMap::new();
        let ghost mut i: int = 0;
        assert(ents.skip(0) =~= ents);
        assert(ents.take(0).filter(keep) =~= Seq::<(String, E)>::empty()) by { reveal(Seq::filter); }
        assert(removal_notices(gid, ev.take(0), node_id@) =~= Seq::<Announcement>::empty());
        assert(self.announced@ =~= old(self).announced@ + removal_notices(gid, ev.take(0), node_id@));
        while rest.len() > 0
            invariant
                ev == ents.map_values(|e: (String, E)| (e.0@, e.1)),
                gid == old(self).id,
                self.id == old(self).id,
                self.nodes == old(self).nodes,
                self.graph_type == old(self).graph_type,
                self.metadata == old(self).metadata,
                self.event_handlers == old(self).event_handlers,
                self.announced@ == old(self).announced@ + removal_notices(gid, ev.take(i), node_id@),
                0 <= i <= ents.len(),
                rest@ == ents.skip(i),
                keep == (|x: (String, E)| !touches(x.1, node_id@)),
                key_seq(ents).no_duplicates(),
                kept.entry_seq() == ents.take(i).filter(keep),
                forall|k: Seq<char>| #[trigger] kept@.contains_key(k) ==>
                    exists|m: int| 0 <= m < i && ents[m].0@ == k,
            decreases rest@.len(),
        {
            let (k, e) = rest.remove(0);
            proof {
                assert(ents[i] == (k, e));
                assert(ents.take(i + 1) =~= ents.take(i).push(ents[i]));
                ents.take(i).lemma_filter_push(ents[i], keep);
                assert(ev.take(i + 1) =~= ev.take(i).push(ev[i]));
                assert(ev.take(i + 1).drop_last() =~= ev.take(i));
                assert(ev[i] == (k@, e));
            }
            let ghost ann_before = self.announced@;
            let src = e.source();
            let tgt = e.target();
            if str_eq(src.as_str(), node_id) || str_eq(tgt.as_str(), node_id) {
                self.emit_event(GraphEvent::EdgeRemoved { graph_id: self.id, edge_id: k });
                assert(self.announced@ =~= old(self).announced@ + removal_notices(gid, ev.take(i + 1), node_id@));
            } else {
                proof {
                    if kept@.contains_key(k@) {
                        let m = choose|m: int| 0 <= m < i && ents[m].0@ == k@;
                        assert(key_seq(ents)[m] == key_seq(ents)[i]);
                    }
                }
                kept.insert(k, e);
                assert(self.announced@ == ann_before);
                assert(removal_notices(gid, ev.take(i + 1), node_id@) == removal_notices(gid, ev.take(i), node_id@));
                proof {
                    assert forall|k2: Seq<char>| #[trigger] kept@.contains_key(k2) implies
                        exists|m: int| 0 <= m < i + 1 && ents[m].0@ == k2 by {
                        if k2 != ents[i].0@ {
                            let m = choose|m: int| 0 <= m < i && ents[m].0@ == k2;
                            assert(0 <= m < i + 1 && ents[m].0@ == k2);
                        } else {
                            assert(ents[i].0@ == k2);
                        }
                    }
                }
            }
            proof { i = i + 1; assert(rest@ =~= ents.skip(i)); }
        }
        proof {
            assert(ents.take(i) =~= ents);
            assert(ev.take(i) =~= ev);
            assert(ev == old(self).edge_entries());
            lemma_filter_values(ents, |e: E| !touches(e, node_id@));
            assert(ents.filter(|x: (String, E)| (|e: E| !touches(e, node_id@))(x.1)) =~= ents.filter(keep)) by {
                assert((|x: (String, E)| (|e: E| !touches(e, node_id@))(x.1)) =~= keep);
            }
            use_type_invariant(&kept);
            kept.lemma_view();
            let fin = kept.entry_seq();
            assert forall|k: Seq<char>| #[trigger] kept@.contains_key(k) implies
                old_map.contains_key(k) && !touches(old_map[k], node_id@) && kept@[k] == old_map[k] by {
                let j = choose|j: int| 0 <= j < fin.len() && fin[j].0@ == k;
                assert(fin.contains(fin[j]));
                ents.lemma_filter_contains_rev(keep, fin[j]);
                ents.lemma_filter_pred(keep, j);
                let m = choose|m: int| 0 <= m < ents.len() && ents[m] == fin[j];
                assert(key_seq(ents)[m] == ents[m].0@);
                assert(key_seq(fin)[j] == fin[j].0@);
            }
            assert forall|k: Seq<char>| old_map.contains_key(k) && !touches(old_map[k], node_id@)
                implies #[trigger] kept@.contains_key(k) by {
                let m = choose|m: int| 0 <= m < ents.len() && ents[m].0@ == k;
                assert(key_seq(ents)[m] == ents[m].0@);
                ents.lemma_filter_contains(keep, m);
                let j = choose|j: int| 0 <= j < fin.len() && fin[j] == ents[m];
                assert(key_seq(fin)[j] == fin[j].0@);
            }
        }
        self.edges = kept;
        let node = match self.nodes.remove(node_id) {
            Some(n) => n,
            None => {
                assert(false);
                return Err(GraphError::NodeNotFound(String::from_str(node_id)));
            },
        };
        self.metadata.updated_at = Timestamp::now();
        self.emit_event(GraphEvent::NodeRemoved { graph_id: self.id, node_id: String::from_str(node_id) });
        Ok(node)
    }
}

impl<N: Node, E: Edge> EventGraph<N, E> {
    /// Removes every node and edge; the id, type and handlers stay.
    pub fn clear(&mut self)
        ensures
            final(self).node_map() == Map::<Seq<char>, N>::empty(),
            final(self).edge_map() == Map::<Seq<char>, E>::empty(),
            final(self).edge_seq().len() == 0,
            final(self).spec_id() == old(self).spec_id(),
            final(self).spec_graph_type() == old(self).spec_graph_type(),
            final(self).spec_metadata() == (GraphMetadata { updated_at: final(self).spec_metadata().updated_at, ..old(self).spec_metadata() }),
            final(self).announcements() == old(self).announcements().push(
                Announcement::GraphCleared { graph_id: old(self).spec_id() }),
            final(self).handlers() == old(self).handlers(),
            final(self).wf(),
    {
        self.nodes.clear();
        self.edges.clear();
        proof {
            use_type_invariant(&self.edges);
            self.edges.lemma_view();
        }
        self.metadata.updated_at = Timestamp::now();
        self.emit_event(GraphEvent::GraphCleared { graph_id: self.id });
    }

    /// The graph's metadata, for changing it.
    pub fn metadata_mut(&mut self) -> (m: &mut GraphMetadata)
        ensures
            *m == old(self).spec_metadata(),
            final(self).spec_metadata() == *final(m),
            final(self).node_map() == old(self).node_map(),
            final(self).edge_map() == old(self).edge_map(),
            final(self).edge_seq() == old(self).edge_seq(),
            final(self).spec_id() == old(self).spec_id(),
            final(self).spec_graph_type() == old(self).spec_graph_type(),
            final(self).announcements() == old(self).announcements(),
            final(self).handlers() == old(self).handlers(),
            old(self).wf() ==> final(self).wf(),
    {
        &mut self.metadata
    }
}

} // verus!
