//! Aggregate projections: the left fold of an aggregate's events.
//!
//! Entities are ids; components are values attached to them by events;
//! relationships between entities are kept under an edge id.

use vstd::prelude::*;
use vstd::string::*;
use crate::events::{GraphEvent, EventPayload, IpldPayload, ContextPayload, WorkflowPayload};
use crate::ids::{Uuid, uuid_text};
use crate::json::{JsonValue, JsonView, JsonNumber, json_view, str_eq};
use crate::strmap::StrMap;

verus! {

/// A graph aggregate projection: the result of folding its events.
#[derive(Debug, Clone)]
pub struct GraphAggregateProjection {
    /// The aggregate root id
    pub aggregate_id: Uuid,
    /// Sequence number of the last event applied
    pub version: u64,
    /// Components attached to entities: entity id -> component type -> data
    pub components: StrMap<StrMap<JsonValue>>,
    /// Relationships: edge id -> (source, target) pairs
    pub relationships: StrMap<Vec<(String, String)>>,
    /// The subject this aggregate belongs to
    pub subject: String,
}

/// The content of an aggregate projection.
pub struct AggregateView {
    pub aggregate_id: Uuid,
    pub version: u64,
    pub components: Map<Seq<char>, Map<Seq<char>, JsonView>>,
    pub relationships: Map<Seq<char>, Seq<(Seq<char>, Seq<char>)>>,
    pub subject: Seq<char>,
}

/// The content of a component map.
pub open spec fn components_view(m: StrMap<JsonValue>) -> Map<Seq<char>, JsonView> {
    m@.map_values(|j: JsonValue| json_view(j))
}

/// The content of a list of (source, target) pairs.
pub open spec fn pairs_view(v: Vec<(String, String)>) -> Seq<(Seq<char>, Seq<char>)> {
    v@.map_values(|p: (String, String)| (p.0@, p.1@))
}

impl View for GraphAggregateProjection {
    type V = AggregateView;

    open spec fn view(&self) -> AggregateView {
        AggregateView {
            aggregate_id: self.aggregate_id,
            version: self.version,
            components: self.components@.map_values(|m: StrMap<JsonValue>| components_view(m)),
            relationships: self.relationships@.map_values(|v: Vec<(String, String)>| pairs_view(v)),
            subject: self.subject@,
        }
    }
}

/// The components that an added CID gets.
pub open spec fn cid_components(cid: Seq<char>, codec: Seq<char>, size: u64, data: JsonView) -> Map<Seq<char>, JsonView> {
    map!["cid"@ => JsonView::Str(cid), "codec"@ => JsonView::Str(codec),
         "size"@ => JsonView::Number(JsonNumber::PosInt(size)), "data"@ => data]
}

/// The edge id of a link between CIDs.
pub open spec fn cid_link_edge_id(cid: Seq<char>, target: Seq<char>, link: Seq<char>) -> Seq<char> {
    cid + "->"@ + target + ":"@ + link
}

/// What one event does to a projection that received it with the given sequence number.
pub open spec fn apply_spec(p: AggregateView, event: GraphEvent, sequence: u64) -> AggregateView {
    if event.aggregate_id != p.aggregate_id {
        p
    } else {
        let q = AggregateView { version: sequence, ..p };
        match event.payload {
            EventPayload::Ipld(IpldPayload::CidAdded { cid, codec, size, data }) =>
                AggregateView { components: q.components.insert(cid@, cid_components(cid@, codec@, size, json_view(data))), ..q },
            EventPayload::Ipld(IpldPayload::CidLinkAdded { cid, link_name, target_cid }) =>
                AggregateView { relationships: q.relationships.insert(
                    cid_link_edge_id(cid@, target_cid@, link_name@), seq![(cid@, target_cid@)]), ..q },
            EventPayload::Context(ContextPayload::BoundedContextCreated { context_id, name, description }) =>
                AggregateView { components: q.components.insert(context_id@, map![
                    "type"@ => JsonView::Str("bounded_context"@), "name"@ => JsonView::Str(name@),
                    "description"@ => JsonView::Str(description@)]), ..q },
            EventPayload::Context(ContextPayload::AggregateAdded { context_id, aggregate_id, aggregate_type }) =>
                AggregateView {
                    components: q.components.insert(uuid_text(aggregate_id.0), map![
                        "type"@ => JsonView::Str("aggregate"@), "aggregate_type"@ => JsonView::Str(aggregate_type@)]),
                    relationships: q.relationships.insert(context_id@ + "-contains-"@ + uuid_text(aggregate_id.0),
                        seq![(context_id@, uuid_text(aggregate_id.0))]),
                    ..q
                },
            EventPayload::Workflow(WorkflowPayload::WorkflowDefined { workflow_id, name, version }) =>
                AggregateView { components: q.components.insert(uuid_text(workflow_id.0), map![
                    "type"@ => JsonView::Str("workflow"@), "name"@ => JsonView::Str(name@),
                    "version"@ => JsonView::Str(version@)]), ..q },
            EventPayload::Workflow(WorkflowPayload::StateAdded { workflow_id, state_id, state_type }) =>
                AggregateView {
                    components: q.components.insert(state_id@, map![
                        "type"@ => JsonView::Str("state"@), "state_type"@ => JsonView::Str(state_type@)]),
                    relationships: q.relationships.insert(uuid_text(workflow_id.0) + "-has-state-"@ + state_id@,
                        seq![(uuid_text(workflow_id.0), state_id@)]),
                    ..q
                },
            _ => q,
        }
    }
}

/// The left fold of `apply_spec` over (event, sequence) pairs.
pub open spec fn fold_spec(p: AggregateView, events: Seq<(GraphEvent, u64)>) -> AggregateView
    decreases events.len(),
{
    if events.len() == 0 {
        p
    } else {
        apply_spec(fold_spec(p, events.drop_last()), events.last().0, events.last().1)
    }
}

/// A JSON string holding a copy of `s`.
fn json_text(s: &str) -> (v: JsonValue)
    ensures
        json_view(v) == JsonView::Str(s@),
{
    JsonValue::String(String::from_str(s))
}

/// `a`, `sep` and `b` joined.
fn join3(a: &str, sep: &str, b: &str) -> (r: String)
    ensures
        r@ == a@ + sep@ + b@,
{
    String::from_str(a).concat(sep).concat(b)
}

impl GraphAggregateProjection {
    /// An empty projection of an aggregate.
    pub fn new(aggregate_id: Uuid, subject: String) -> (p: Self)
        ensures
            p@.aggregate_id == aggregate_id,
            p@.version == 0,
            p@.components == Map::<Seq<char>, Map<Seq<char>, JsonView>>::empty(),
            p@.relationships == Map::<Seq<char>, Seq<(Seq<char>, Seq<char>)>>::empty(),
            p@.subject == subject@,
    {
        let p = GraphAggregateProjection {
            aggregate_id,
            version: 0,
            components: StrMap::new(),
            relationships: StrMap::new(),
            subject,
        };
        assert(p@.components =~= Map::<Seq<char>, Map<Seq<char>, JsonView>>::empty());
        assert(p@.relationships =~= Map::<Seq<char>, Seq<(Seq<char>, Seq<char>)>>::empty());
        p
    }

    /// Applies an event received with the given sequence number. Events of
    /// other aggregates leave the projection unchanged.
    pub fn apply(&mut self, event: &GraphEvent, sequence: u64)
        ensures
            final(self)@ == apply_spec(old(self)@, *event, sequence),
    {
        if event.aggregate_id != self.aggregate_id {
            return;
        }
        self.version = sequence;
        let ghost q = self@;
        match &event.payload {
            EventPayload::Ipld(IpldPayload::CidAdded { cid, codec, size, data }) => {
                let mut c: StrMap<JsonValue> = StrMap::new();
                c.insert(String::from_str("cid"), JsonValue::String(cid.clone()));
                c.insert(String::from_str("codec"), JsonValue::String(codec.clone()));
                c.insert(String::from_str("size"), JsonValue::Number(JsonNumber::PosInt(*size)));
                c.insert(String::from_str("data"), data.clone());
                assert(components_view(c) =~= cid_components(cid@, codec@, *size, json_view(*data)));
                self.components.insert(cid.clone(), c);
                assert(self@.components =~= q.components.insert(cid@, cid_components(cid@, codec@, *size, json_view(*data))));
            },
            EventPayload::Ipld(IpldPayload::CidLinkAdded { cid, link_name, target_cid }) => {
                let edge_id = join3(cid.as_str(), "->", target_cid.as_str()).concat(":").concat(link_name.as_str());
                let pairs = vec![(cid.clone(), target_cid.clone())];
                assert(pairs_view(pairs) =~= seq![(cid@, target_cid@)]);
                self.relationships.insert(edge_id, pairs);
                assert(self@.relationships =~= q.relationships.insert(
                    cid_link_edge_id(cid@, target_cid@, link_name@), seq![(cid@, target_cid@)]));
                assert(self@.components =~= q.components);
            },
            EventPayload::Context(ContextPayload::BoundedContextCreated { context_id, name, description }) => {
                let mut c: StrMap<JsonValue> = StrMap::new();
                c.insert(String::from_str("type"), json_text("bounded_context"));
                c.insert(String::from_str("name"), JsonValue::String(name.clone()));
                c.insert(String::from_str("description"), JsonValue::String(description.clone()));
                let ghost expected = map!["type"@ => JsonView::Str("bounded_context"@), "name"@ => JsonView::Str(name@),
                    "description"@ => JsonView::Str(description@)];
                assert(components_view(c) =~= expected);
                self.components.insert(context_id.clone(), c);
                assert(self@.components =~= q.components.insert(context_id@, expected));
            },
            EventPayload::Context(ContextPayload::AggregateAdded { context_id, aggregate_id, aggregate_type }) => {
                let mut c: StrMap<JsonValue> = StrMap::new();
                c.insert(String::from_str("type"), json_text("aggregate"));
                c.insert(String::from_str("aggregate_type"), JsonValue::String(aggregate_type.clone()));
                let ghost expected = map!["type"@ => JsonView::Str("aggregate"@), "aggregate_type"@ => JsonView::Str(aggregate_type@)];
                assert(components_view(c) =~= expected);
                self.components.insert(aggregate_id.to_string(), c);
                let aid = aggregate_id.to_string();
                let edge_id = join3(context_id.as_str(), "-contains-", aid.as_str());
                let pairs = vec![(context_id.clone(), aid)];
                assert(pairs_view(pairs) =~= seq![(context_id@, uuid_text(aggregate_id.0))]);
                self.relationships.insert(edge_id, pairs);
                assert(self@.components =~= q.components.insert(uuid_text(aggregate_id.0), expected));
                assert(self@.relationships =~= q.relationships.insert(context_id@ + "-contains-"@ + uuid_text(aggregate_id.0),
                    seq![(context_id@, uuid_text(aggregate_id.0))]));
            },
            EventPayload::Workflow(WorkflowPayload::WorkflowDefined { workflow_id, name, version }) => {
                let mut c: StrMap<JsonValue> = StrMap::new();
                c.insert(String::from_str("type"), json_text("workflow"));
                c.insert(String::from_str("name"), JsonValue::String(name.clone()));
                c.insert(String::from_str("version"), JsonValue::String(version.clone()));
                let ghost expected = map!["type"@ => JsonView::Str("workflow"@), "name"@ => JsonView::Str(name@),
                    "version"@ => JsonView::Str(version@)];
                assert(components_view(c) =~= expected);
                self.components.insert(workflow_id.to_string(), c);
                assert(self@.components =~= q.components.insert(uuid_text(workflow_id.0), expected));
            },
            EventPayload::Workflow(WorkflowPayload::StateAdded { workflow_id, state_id, state_type }) => {
                let mut c: StrMap<JsonValue> = StrMap::new();
                c.insert(String::from_str("type"), json_text("state"));
                c.insert(String::from_str("state_type"), JsonValue::String(state_type.clone()));
                let ghost expected = map!["type"@ => JsonView::Str("state"@), "state_type"@ => JsonView::Str(state_type@)];
                assert(components_view(c) =~= expected);
                self.components.insert(state_id.clone(), c);
                let wid = workflow_id.to_string();
                let edge_id = join3(wid.as_str(), "-has-state-", state_id.as_str());
                let pairs = vec![(wid, state_id.clone())];
                assert(pairs_view(pairs) =~= seq![(uuid_text(workflow_id.0), state_id@)]);
                self.relationships.insert(edge_id, pairs);
                assert(self@.components =~= q.components.insert(state_id@, expected));
                assert(self@.relationships =~= q.relationships.insert(uuid_text(workflow_id.0) + "-has-state-"@ + state_id@,
                    seq![(uuid_text(workflow_id.0), state_id@)]));
            },
            _ => {},
        }
    }
}

/// The edges listed under one edge id that a relationship query gives back:
/// all of them when any matches the filters, else none.
pub open spec fn matching_edges(edge_id: Seq<char>, pairs: Seq<(Seq<char>, Seq<char>)>,
    source: Option<Seq<char>>, target: Option<Seq<char>>) -> Seq<(Seq<char>, Seq<char>, Seq<char>)> {
    if exists|i: int| 0 <= i < pairs.len() && pair_matches(pairs[i], source, target) {
        tag_edges(edge_id, pairs)
    } else {
        Seq::empty()
    }
}

/// What a relationship query gives back for a list of relationship entries, in order.
pub open spec fn relationship_query(entries: Seq<(String, Vec<(String, String)>)>,
    source: Option<Seq<char>>, target: Option<Seq<char>>) -> Seq<(Seq<char>, Seq<char>, Seq<char>)>
    decreases entries.len(),
{
    if entries.len() == 0 {
        Seq::empty()
    } else {
        relationship_query(entries.drop_last(), source, target)
            + matching_edges(entries.last().0@, pairs_view(entries.last().1), source, target)
    }
}

/// The content of a list of (edge id, source, target) triples.
pub open spec fn triples_view(s: Seq<(String, String, String)>) -> Seq<(Seq<char>, Seq<char>, Seq<char>)> {
    s.map_values(|t: (String, String, String)| (t.0@, t.1@, t.2@))
}

/// (source, target) pairs tagged with their edge id.
pub open spec fn tag_edges(edge_id: Seq<char>, pairs: Seq<(Seq<char>, Seq<char>)>) -> Seq<(Seq<char>, Seq<char>, Seq<char>)> {
    pairs.map_values(|p: (Seq<char>, Seq<char>)| (edge_id, p.0, p.1))
}

/// The view of an optional text.
pub open spec fn opt_text(s: Option<&str>) -> Option<Seq<char>> {
    match s {
        Some(t) => Some(t@),
        None => None,
    }
}

/// The entities that carry a component of the given type, each once, in the
/// order their entities were first added.
pub fn query_entities_with_component(projection: &GraphAggregateProjection, component_type: &str) -> (r: Vec<String>)
    ensures
        forall|k: Seq<char>| #![trigger projection@.components.contains_key(k)]
            (exists|i: int| 0 <= i < r@.len() && r@[i]@ == k)
            <==> (projection@.components.contains_key(k) && projection@.components[k].contains_key(component_type@)),
        forall|i: int, j: int| 0 <= i < j < r@.len() ==> r@[i]@ != r@[j]@,
{
    let comps = &projection.components;
    proof { use_type_invariant(comps); comps.lemma_view(); }
    let mut r: Vec<String> = Vec::new();
    let mut i: usize = 0;
    let n = comps.len();
    let ghost idx: Seq<int> = Seq::empty();
    while i < n
        invariant
            n == comps.entry_seq().len(),
            i <= n,
            comps.wf(),
            idx.len() == r@.len(),
            forall|a: int| 0 <= a < idx.len() ==> 0 <= #[trigger] idx[a] < i && r@[a]@ == comps.entry_seq()[idx[a]].0@,
            forall|a: int, b: int| 0 <= a < b < idx.len() ==> idx[a] < idx[b],
            forall|j: int| 0 <= j < i && (#[trigger] comps.entry_seq()[j]).1@.contains_key(component_type@)
                ==> exists|a: int| 0 <= a < idx.len() && idx[a] == j,
            forall|a: int| 0 <= a < idx.len() ==> comps.entry_seq()[#[trigger] idx[a]].1@.contains_key(component_type@),
        decreases n - i,
    {
        let m = comps.value_at(i);
        let ghost old_idx = idx;
        if m.contains_key(component_type) {
            r.push(comps.key_at(i).clone());
            proof {
                idx = idx.push(i as int);
                assert(idx[idx.len() - 1] == i);
            }
        }
        assert forall|j: int| 0 <= j < i + 1 && (#[trigger] comps.entry_seq()[j]).1@.contains_key(component_type@)
            implies exists|a: int| 0 <= a < idx.len() && idx[a] == j by {
            if j < i {
                let a = choose|a: int| 0 <= a < old_idx.len() && old_idx[a] == j;
                assert(idx[a] == j);
            } else {
                assert(idx[idx.len() - 1] == i);
            }
        }
        i = i + 1;
    }
    proof {
        assert forall|k: Seq<char>| #![trigger projection@.components.contains_key(k)]
            (exists|a: int| 0 <= a < r@.len() && r@[a]@ == k)
            <==> (projection@.components.contains_key(k) && projection@.components[k].contains_key(component_type@)) by {
            if exists|a: int| 0 <= a < r@.len() && r@[a]@ == k {
                let a = choose|a: int| 0 <= a < r@.len() && r@[a]@ == k;
                let j = idx[a];
                assert(comps.key_list()[j] == comps.entry_seq()[j].0@);
            }
            if projection@.components.contains_key(k) && projection@.components[k].contains_key(component_type@) {
                let j = choose|j: int| 0 <= j < comps.entry_seq().len() && comps.entry_seq()[j].0@ == k;
                assert(comps.key_list()[j] == comps.entry_seq()[j].0@);
                let a = choose|a: int| 0 <= a < idx.len() && idx[a] == j;
                assert(r@[a]@ == k);
            }
        }
        assert forall|a: int, b: int| 0 <= a < b < r@.len() implies r@[a]@ != r@[b]@ by {
            assert(comps.key_list()[idx[a]] == comps.entry_seq()[idx[a]].0@);
            assert(comps.key_list()[idx[b]] == comps.entry_seq()[idx[b]].0@);
        }
    }
    r
}

/// Whether a pair matches the optional source and target filters.
pub open spec fn pair_matches(p: (Seq<char>, Seq<char>), source: Option<Seq<char>>, target: Option<Seq<char>>) -> bool {
    (source is None || p.0 == source->0) && (target is None || p.1 == target->0)
}

fn any_pair_matches(pairs: &Vec<(String, String)>, source: Option<&str>, target: Option<&str>) -> (b: bool)
    ensures
        b == exists|x: int| 0 <= x < pairs@.len() && pair_matches(pairs_view(*pairs)[x], opt_text(source), opt_text(target)),
{
    let ghost pv = pairs_view(*pairs);
    let mut j: usize = 0;
    while j < pairs.len()
        invariant
            j <= pairs@.len(),
            pv == pairs_view(*pairs),
            forall|x: int| 0 <= x < j ==> !pair_matches(pv[x], opt_text(source), opt_text(target)),
        decreases pairs@.len() - j,
    {
        let s_ok = match source { Some(s) => str_eq(pairs[j].0.as_str(), s), None => true };
        let t_ok = match target { Some(t) => str_eq(pairs[j].1.as_str(), t), None => true };
        assert(pv[j as int] == (pairs@[j as int].0@, pairs@[j as int].1@));
        if s_ok && t_ok {
            assert(pair_matches(pv[j as int], opt_text(source), opt_text(target)));
            return true;
        }
        j = j + 1;
    }
    false
}

/// The relationships with an edge matching the filters: for each such edge
/// id, every (edge id, source, target) listed under it, in the order the
/// edge ids were first added.
pub fn query_relationships(projection: &GraphAggregateProjection, source: Option<&str>, target: Option<&str>)
    -> (r: Vec<(String, String, String)>)
    ensures
        triples_view(r@)
            == relationship_query(projection.relationships.entry_seq(), opt_text(source), opt_text(target)),
{
    let rels = &projection.relationships;
    let mut r: Vec<(String, String, String)> = Vec::new();
    let mut i: usize = 0;
    let n = rels.len();
    let ghost src = opt_text(source);
    let ghost tgt = opt_text(target);
    while i < n
        invariant
            n == rels.entry_seq().len(),
            i <= n,
            src == opt_text(source),
            tgt == opt_text(target),
            triples_view(r@)
                == relationship_query(rels.entry_seq().take(i as int), src, tgt),
        decreases n - i,
    {
        let edge_id = rels.key_at(i);
        let pairs = rels.value_at(i);
        let ghost pv = pairs_view(*pairs);
        let any = any_pair_matches(pairs, source, target);
        let ghost before = triples_view(r@);
        assert(pv.len() == pairs@.len());

        assert(relationship_query(rels.entry_seq().take(i + 1), src, tgt)
            == relationship_query(rels.entry_seq().take(i as int), src, tgt) + matching_edges((*edge_id)@, pv, src, tgt)) by {
            assert(rels.entry_seq().take(i + 1).drop_last() =~= rels.entry_seq().take(i as int));
            assert(rels.entry_seq().take(i + 1).last() == rels.entry_seq()[i as int]);
        }
        if any {
            let mut j: usize = 0;
            while j < pairs.len()
                invariant
                    j <= pairs@.len(),
                    pv == pairs_view(*pairs),
                    triples_view(r@)
                        == before + tag_edges((*edge_id)@, pv.take(j as int)),
                decreases pairs@.len() - j,
            {
                let ghost prev = r@;
                r.push((edge_id.clone(), pairs[j].0.clone(), pairs[j].1.clone()));
                assert(pv[j as int] == (pairs@[j as int].0@, pairs@[j as int].1@));
                assert(pv.take(j + 1) =~= pv.take(j as int).push(pv[j as int]));
                assert(r@ =~= prev.push(r@[r@.len() - 1]));
                assert(triples_view(r@) =~= triples_view(prev).push(((*edge_id)@, pv[j as int].0, pv[j as int].1)));
                assert(tag_edges((*edge_id)@, pv.take(j + 1))
                    =~= tag_edges((*edge_id)@, pv.take(j as int))
                        .push(((*edge_id)@, pv[j as int].0, pv[j as int].1)));
                assert(triples_view(r@)
                    =~= before + tag_edges((*edge_id)@, pv.take(j + 1)));
                j = j + 1;
            }
            assert(pv.take(pairs@.len() as int) =~= pv);
            assert(matching_edges((*edge_id)@, pv, src, tgt) == tag_edges((*edge_id)@, pv));
            assert(triples_view(r@) == before + matching_edges((*edge_id)@, pv, src, tgt));
        } else {
            assert(matching_edges((*edge_id)@, pv, src, tgt) == Seq::<(Seq<char>, Seq<char>, Seq<char>)>::empty());
            assert(before + Seq::<(Seq<char>, Seq<char>, Seq<char>)>::empty() =~= before);
        }
        assert(rels.entry_seq().take(i + 1).drop_last() =~= rels.entry_seq().take(i as int));
        assert(rels.entry_seq().take(i + 1).last() == rels.entry_seq()[i as int]);
        assert(tag_edges((*edge_id)@, pv).len() == pv.len());
        assert(triples_view(r@)
            =~= relationship_query(rels.entry_seq().take(i + 1), src, tgt));
        i = i + 1;
    }
    assert(rels.entry_seq().take(n as int) =~= rels.entry_seq());
    r
}

/// The components attached to an entity.
pub fn get_entity_components<'a>(projection: &'a GraphAggregateProjection, entity_id: &str) -> (r: Option<&'a StrMap<JsonValue>>)
    ensures
        match r {
            Some(m) => projection.components@.contains_key(entity_id@) && projection.components@[entity_id@] == *m,
            None => !projection@.components.contains_key(entity_id@),
        },
{
    projection.components.get(entity_id)
}

/// The subject of an aggregate's event stream.
pub open spec fn aggregate_subject(id: Uuid) -> Seq<char> {
    "cim.graph."@ + uuid_text(id.0) + ".events"@
}

/// Builds a projection by folding (event, sequence) pairs, from an empty
/// projection of the first event's aggregate.
pub fn build_projection(events: Vec<(GraphEvent, u64)>) -> (p: GraphAggregateProjection)
    requires
        events@.len() > 0,
    ensures
        p@ == fold_spec(AggregateView {
            aggregate_id: events@[0].0.aggregate_id,
            version: 0,
            components: Map::empty(),
            relationships: Map::empty(),
            subject: aggregate_subject(events@[0].0.aggregate_id),
        }, events@),
{
    let aggregate_id = events[0].0.aggregate_id;
    let id_text = aggregate_id.to_string();
    let subject = join3("cim.graph.", id_text.as_str(), ".events");
    let mut projection = GraphAggregateProjection::new(aggregate_id, subject);
    let ghost start = projection@;
    let mut i: usize = 0;
    while i < events.len()
        invariant
            i <= events@.len(),
            projection@ == fold_spec(start, events@.take(i as int)),
        decreases events@.len() - i,
    {
        projection.apply(&events[i].0, events[i].1);
        assert(events@.take(i + 1).drop_last() =~= events@.take(i as int));
        i = i + 1;
    }
    assert(events@.take(events@.len() as int) =~= events@);
    projection
}

/// Applying events in two batches gives the projection of all of them.
pub proof fn law_batches_compose(p: AggregateView, a: Seq<(GraphEvent, u64)>, b: Seq<(GraphEvent, u64)>)
    ensures
        fold_spec(p, a + b) == fold_spec(fold_spec(p, a), b),
    decreases b.len(),
{
    if b.len() == 0 {
        assert(a + b =~= a);
    } else {
        law_batches_compose(p, a, b.drop_last());
        assert((a + b).drop_last() =~= a + b.drop_last());
        assert((a + b).last() == b.last());
    }
}

/// A link from CID `c` to CID `t` is stored under its edge id as the one
/// pair with source `c` and target `t`; every other relationship stays.
pub proof fn law_cid_link_runs_from_source_to_target(p: AggregateView, event: GraphEvent, sequence: u64,
    c: Seq<char>, t: Seq<char>, l: Seq<char>)
    requires
        event.aggregate_id == p.aggregate_id,
        event.payload matches EventPayload::Ipld(IpldPayload::CidLinkAdded { cid, link_name, target_cid })
            && cid@ == c && target_cid@ == t && link_name@ == l,
    ensures
        apply_spec(p, event, sequence).relationships.contains_key(cid_link_edge_id(c, t, l)),
        apply_spec(p, event, sequence).relationships[cid_link_edge_id(c, t, l)].len() == 1,
        apply_spec(p, event, sequence).relationships[cid_link_edge_id(c, t, l)][0].0 == c,
        apply_spec(p, event, sequence).relationships[cid_link_edge_id(c, t, l)][0].1 == t,
        forall|k: Seq<char>| k != cid_link_edge_id(c, t, l) ==>
            (#[trigger] apply_spec(p, event, sequence).relationships.contains_key(k) <==> p.relationships.contains_key(k)),
        forall|k: Seq<char>| k != cid_link_edge_id(c, t, l) && p.relationships.contains_key(k) ==>
            #[trigger] apply_spec(p, event, sequence).relationships[k] == p.relationships[k],
{
}

} // verus!
