//! The domain functor `F: Graphs → Domain`: graph nodes map to domain
//! aggregates, graph edges to domain relationships, and paths of edges to
//! chains of relationships (so that `F(g ∘ f) = F(g) ∘ F(f)`).

use vstd::prelude::*;
use vstd::string::*;
use vstd::std_specs::cmp::PartialEqSpecImpl;
use crate::functors::category::{Functor, MorphismData, clone_json_map};
use crate::graph_core::edge::Edge;
use crate::graph_core::node::Node;
use crate::ids::{Uuid, uuid_nibble};
use crate::json::{JsonValue, str_eq};
use crate::strmap::StrMap;
use crate::text::{texts_view, clone_texts};

verus! {

/// Kinds of domain aggregates.
#[derive(Debug, Hash)]
pub enum DomainAggregateType {
    /// A policy
    Policy,
    /// A location
    Location,
    /// An organization
    Organization,
    /// A person
    Person,
    /// Any other kind, by name
    Custom(String),
}

impl Clone for DomainAggregateType {
    fn clone(&self) -> (res: Self)
        ensures
            res == *self,
    {
        match self {
            DomainAggregateType::Policy => DomainAggregateType::Policy,
            DomainAggregateType::Location => DomainAggregateType::Location,
            DomainAggregateType::Organization => DomainAggregateType::Organization,
            DomainAggregateType::Person => DomainAggregateType::Person,
            DomainAggregateType::Custom(s) => DomainAggregateType::Custom(s.clone()),
        }
    }
}

/// Whether two aggregate kinds are the same kind.
pub open spec fn same_aggregate_type(a: DomainAggregateType, b: DomainAggregateType) -> bool {
    match (a, b) {
        (DomainAggregateType::Policy, DomainAggregateType::Policy) => true,
        (DomainAggregateType::Location, DomainAggregateType::Location) => true,
        (DomainAggregateType::Organization, DomainAggregateType::Organization) => true,
        (DomainAggregateType::Person, DomainAggregateType::Person) => true,
        (DomainAggregateType::Custom(x), DomainAggregateType::Custom(y)) => x@ == y@,
        _ => false,
    }
}

impl PartialEq for DomainAggregateType {
    fn eq(&self, other: &Self) -> (r: bool) {
        match (self, other) {
            (DomainAggregateType::Policy, DomainAggregateType::Policy) => true,
            (DomainAggregateType::Location, DomainAggregateType::Location) => true,
            (DomainAggregateType::Organization, DomainAggregateType::Organization) => true,
            (DomainAggregateType::Person, DomainAggregateType::Person) => true,
            (DomainAggregateType::Custom(x), DomainAggregateType::Custom(y)) => str_eq(x.as_str(), y.as_str()),
            _ => false,
        }
    }
}

impl PartialEqSpecImpl for DomainAggregateType {
    open spec fn obeys_eq_spec() -> bool {
        true
    }

    open spec fn eq_spec(&self, other: &Self) -> bool {
        same_aggregate_type(*self, *other)
    }
}

impl Eq for DomainAggregateType {}

/// How an aggregate kind is displayed: its name, or `Custom(name)`.
pub open spec fn aggregate_type_text(t: DomainAggregateType) -> Seq<char> {
    match t {
        DomainAggregateType::Policy => "Policy"@,
        DomainAggregateType::Location => "Location"@,
        DomainAggregateType::Organization => "Organization"@,
        DomainAggregateType::Person => "Person"@,
        DomainAggregateType::Custom(s) => "Custom("@ + s@ + ")"@,
    }
}

impl DomainAggregateType {
    /// How this kind is displayed.
    pub fn to_string(&self) -> (s: String)
        ensures
            s@ == aggregate_type_text(*self),
    {
        match self {
            DomainAggregateType::Policy => String::from_str("Policy"),
            DomainAggregateType::Location => String::from_str("Location"),
            DomainAggregateType::Organization => String::from_str("Organization"),
            DomainAggregateType::Person => String::from_str("Person"),
            DomainAggregateType::Custom(s) => {
                let mut t = String::from_str("Custom(");
                t.append(s.as_str());
                t.append(")");
                proof { reveal_strlit("Custom("); reveal_strlit(")"); }
                t
            },
        }
    }
}

/// Kinds of relationships between domain objects.
#[derive(Debug)]
pub enum RelationshipType {
    /// One contains the other
    Contains,
    /// One references the other
    References,
    /// One depends on the other
    DependsOn,
    /// Steps of a workflow
    WorkflowStep,
    /// Parent and child
    ParentChild,
    /// Any other kind, by name
    Custom(String),
}

impl Clone for RelationshipType {
    fn clone(&self) -> (res: Self)
        ensures
            res == *self,
    {
        match self {
            RelationshipType::Contains => RelationshipType::Contains,
            RelationshipType::References => RelationshipType::References,
            RelationshipType::DependsOn => RelationshipType::DependsOn,
            RelationshipType::WorkflowStep => RelationshipType::WorkflowStep,
            RelationshipType::ParentChild => RelationshipType::ParentChild,
            RelationshipType::Custom(s) => RelationshipType::Custom(s.clone()),
        }
    }
}

/// Whether two relationship kinds are the same kind.
pub open spec fn same_relationship_type(a: RelationshipType, b: RelationshipType) -> bool {
    match (a, b) {
        (RelationshipType::Contains, RelationshipType::Contains) => true,
        (RelationshipType::References, RelationshipType::References) => true,
        (RelationshipType::DependsOn, RelationshipType::DependsOn) => true,
        (RelationshipType::WorkflowStep, RelationshipType::WorkflowStep) => true,
        (RelationshipType::ParentChild, RelationshipType::ParentChild) => true,
        (RelationshipType::Custom(x), RelationshipType::Custom(y)) => x@ == y@,
        _ => false,
    }
}

impl PartialEq for RelationshipType {
    fn eq(&self, other: &Self) -> (r: bool) {
        match (self, other) {
            (RelationshipType::Contains, RelationshipType::Contains) => true,
            (RelationshipType::References, RelationshipType::References) => true,
            (RelationshipType::DependsOn, RelationshipType::DependsOn) => true,
            (RelationshipType::WorkflowStep, RelationshipType::WorkflowStep) => true,
            (RelationshipType::ParentChild, RelationshipType::ParentChild) => true,
            (RelationshipType::Custom(x), RelationshipType::Custom(y)) => str_eq(x.as_str(), y.as_str()),
            _ => false,
        }
    }
}

impl PartialEqSpecImpl for RelationshipType {
    open spec fn obeys_eq_spec() -> bool {
        true
    }

    open spec fn eq_spec(&self, other: &Self) -> bool {
        same_relationship_type(*self, *other)
    }
}

impl Eq for RelationshipType {}

/// A domain object (an aggregate) that a node maps to.
#[derive(Debug)]
pub struct DomainObject {
    /// Its id
    pub id: Uuid,
    /// Its kind
    pub aggregate_type: DomainAggregateType,
    /// Its name
    pub name: String,
    /// Further properties
    pub properties: StrMap<JsonValue>,
    /// Its version
    pub version: u64,
}

/// The content of a domain object.
pub struct ObjectView {
    pub id: Uuid,
    pub aggregate_type: DomainAggregateType,
    pub name: Seq<char>,
    pub properties: Map<Seq<char>, JsonValue>,
    pub version: u64,
}

impl View for DomainObject {
    type V = ObjectView;

    open spec fn view(&self) -> ObjectView {
        ObjectView {
            id: self.id,
            aggregate_type: self.aggregate_type,
            name: self.name@,
            properties: self.properties@,
            version: self.version,
        }
    }
}

impl Clone for DomainObject {
    fn clone(&self) -> (res: Self)
        ensures
            res@ == self@,
    {
        DomainObject {
            id: self.id,
            aggregate_type: self.aggregate_type.clone(),
            name: self.name.clone(),
            properties: clone_json_map(&self.properties),
            version: self.version,
        }
    }
}

/// A relationship between domain objects that an edge maps to.
#[derive(Debug)]
pub struct DomainRelationship {
    /// Its id (the edge's id)
    pub id: String,
    /// The source object
    pub source_id: Uuid,
    /// The target object
    pub target_id: Uuid,
    /// Its kind
    pub relationship_type: RelationshipType,
    /// Further properties
    pub properties: StrMap<JsonValue>,
}

/// The content of a domain relationship.
pub struct RelationshipView {
    pub id: Seq<char>,
    pub source_id: Uuid,
    pub target_id: Uuid,
    pub relationship_type: RelationshipType,
    pub properties: Map<Seq<char>, JsonValue>,
}

impl View for DomainRelationship {
    type V = RelationshipView;

    open spec fn view(&self) -> RelationshipView {
        RelationshipView {
            id: self.id@,
            source_id: self.source_id,
            target_id: self.target_id,
            relationship_type: self.relationship_type,
            properties: self.properties@,
        }
    }
}

impl Clone for DomainRelationship {
    fn clone(&self) -> (res: Self)
        ensures
            res@ == self@,
    {
        DomainRelationship {
            id: self.id.clone(),
            source_id: self.source_id,
            target_id: self.target_id,
            relationship_type: self.relationship_type.clone(),
            properties: clone_json_map(&self.properties),
        }
    }
}

/// The content of a map of domain objects.
pub open spec fn objects_view(m: StrMap<DomainObject>) -> Map<Seq<char>, ObjectView> {
    m@.map_values(|o: DomainObject| o@)
}

/// The content of a map of relationships.
pub open spec fn relationships_view(m: StrMap<DomainRelationship>) -> Map<Seq<char>, RelationshipView> {
    m@.map_values(|r: DomainRelationship| r@)
}

/// The content of a list of relationships.
pub open spec fn relationship_list(v: Seq<DomainRelationship>) -> Seq<RelationshipView> {
    v.map_values(|r: DomainRelationship| r@)
}

/// The content of a map of paths.
pub open spec fn paths_view(m: StrMap<Vec<String>>) -> Map<Seq<char>, Seq<Seq<char>>> {
    m@.map_values(|p: Vec<String>| texts_view(p))
}

/// Whether each relationship ends where the next one starts, so that the
/// sequence composes.
pub open spec fn composable(rels: Seq<RelationshipView>) -> bool {
    forall|i: int| 0 <= i < rels.len() - 1 ==> #[trigger] rels[i].target_id == rels[i + 1].source_id
}

/// The relationships of the edges of a path that have one, in order.
pub open spec fn present_relationships(path: Seq<Seq<char>>, rels: Map<Seq<char>, RelationshipView>) -> Seq<RelationshipView>
    decreases path.len(),
{
    if path.len() == 0 {
        Seq::empty()
    } else {
        let r = present_relationships(path.drop_last(), rels);
        if rels.contains_key(path.last()) { r.push(rels[path.last()]) } else { r }
    }
}

/// Whether every edge of a path has a relationship.
pub open spec fn all_mapped(path: Seq<Seq<char>>, rels: Map<Seq<char>, RelationshipView>) -> bool {
    forall|i: int| 0 <= i < path.len() ==> rels.contains_key(#[trigger] path[i])
}

/// The texts of a path joined with "->".
pub open spec fn arrow_joined(path: Seq<Seq<char>>) -> Seq<char>
    decreases path.len(),
{
    if path.len() == 0 {
        Seq::empty()
    } else if path.len() == 1 {
        path[0]
    } else {
        arrow_joined(path.drop_last()) + "->"@ + path.last()
    }
}

/// The functor from graphs to domain objects.
#[derive(Debug)]
pub struct DomainFunctor {
    /// Its id
    pub functor_id: String,
    /// The domain object of each mapped node, by node id
    pub node_to_domain: StrMap<DomainObject>,
    /// The relationship of each mapped edge, by edge id
    pub edge_to_relationship: StrMap<DomainRelationship>,
    /// Each composed path, by its ids joined with "->"
    pub composition_cache: StrMap<Vec<String>>,
}

impl Clone for DomainFunctor {
    fn clone(&self) -> (res: Self)
        ensures
            res.functor_id == self.functor_id,
            objects_view(res.node_to_domain) == objects_view(self.node_to_domain),
            relationships_view(res.edge_to_relationship) == relationships_view(self.edge_to_relationship),
            paths_view(res.composition_cache) == paths_view(self.composition_cache),
    {
        let n = self.node_to_domain.clone();
        let e = self.edge_to_relationship.clone();
        let c = self.composition_cache.clone();
        assert(objects_view(n) =~= objects_view(self.node_to_domain));
        assert(relationships_view(e) =~= relationships_view(self.edge_to_relationship));
        assert(paths_view(c) =~= paths_view(self.composition_cache));
        DomainFunctor { functor_id: self.functor_id.clone(), node_to_domain: n, edge_to_relationship: e, composition_cache: c }
    }
}

/// The relationships of the edges of a path that have one, in order.
fn lookup_present(path: &Vec<String>, rels: &StrMap<DomainRelationship>) -> (r: Vec<DomainRelationship>)
    ensures
        relationship_list(r@) == present_relationships(texts_view(*path), relationships_view(*rels)),
{
    let ghost p = texts_view(*path);
    let mut r: Vec<DomainRelationship> = Vec::new();
    let mut i: usize = 0;
    while i < path.len()
        invariant
            i <= path@.len(),
            p == texts_view(*path),
            relationship_list(r@) == present_relationships(p.take(i as int), relationships_view(*rels)),
        decreases path@.len() - i,
    {
        assert(p.take(i + 1).drop_last() =~= p.take(i as int));
        assert(p.take(i + 1).last() == path@[i as int]@);
        let ghost before = r@;
        match rels.get(path[i].as_str()) {
            Some(rel) => {
                r.push(rel.clone());
                assert(relationship_list(r@) =~= relationship_list(before).push(rel@));
            },
            None => {},
        }
        i = i + 1;
    }
    assert(p.take(path@.len() as int) =~= p);
    r
}

/// A copy of a path.
fn copy_path(path: &[String]) -> (r: Vec<String>)
    ensures
        texts_view(r) == path@.map_values(|t: String| t@),
{
    let mut r: Vec<String> = Vec::new();
    let mut i: usize = 0;
    while i < path.len()
        invariant
            i <= path@.len(),
            r@ == path@.take(i as int),
        decreases path@.len() - i,
    {
        r.push(path[i].clone());
        assert(path@.take(i + 1) =~= path@.take(i as int).push(path@[i as int]));
        i = i + 1;
    }
    assert(path@.take(path@.len() as int) =~= path@);
    assert(texts_view(r) =~= path@.map_values(|t: String| t@));
    r
}

/// Joins texts with "->".
fn join_arrows(path: &[String]) -> (s: String)
    ensures
        s@ == arrow_joined(path@.map_values(|t: String| t@)),
{
    let ghost p = path@.map_values(|t: String| t@);
    let mut s = String::new();
    let mut i: usize = 0;
    proof { reveal_strlit("->"); }
    assert(p.take(0) =~= Seq::<Seq<char>>::empty());
    while i < path.len()
        invariant
            i <= path@.len(),
            p == path@.map_values(|t: String| t@),
            s@ == arrow_joined(p.take(i as int)),
        decreases path@.len() - i,
    {
        assert(p.take(i + 1).drop_last() =~= p.take(i as int));
        assert(p.take(i + 1).last() == path@[i as int]@);
        if i > 0 {
            s.append("->");
        } else {
            assert(p.take(1) =~= seq![path@[0]@]);
        }
        s.append(path[i].as_str());
        i = i + 1;
    }
    assert(p.take(path@.len() as int) =~= p);
    s
}

impl DomainFunctor {
    /// A functor that maps nothing yet.
    pub fn new(functor_id: String) -> (f: Self)
        ensures
            f.functor_id == functor_id,
            f.node_to_domain@ == Map::<Seq<char>, DomainObject>::empty(),
            f.edge_to_relationship@ == Map::<Seq<char>, DomainRelationship>::empty(),
            f.composition_cache@ == Map::<Seq<char>, Vec<String>>::empty(),
    {
        DomainFunctor {
            functor_id,
            node_to_domain: StrMap::new(),
            edge_to_relationship: StrMap::new(),
            composition_cache: StrMap::new(),
        }
    }

    /// Maps a node to a domain object: the one it already maps to, or a new
    /// object (a fresh time-ordered id, the node's id as name, no properties,
    /// version 1) of the given kind.
    pub fn map_node<N: Node>(&mut self, node: &N, aggregate_type: DomainAggregateType) -> (o: DomainObject)
        ensures
            old(self).node_to_domain@.contains_key(node.spec_id()) ==> {
                &&& o@ == objects_view(old(self).node_to_domain)[node.spec_id()]
                &&& objects_view(final(self).node_to_domain) == objects_view(old(self).node_to_domain)
            },
            !old(self).node_to_domain@.contains_key(node.spec_id()) ==> {
                &&& uuid_nibble(o.id.0, 12) == 7
                &&& o.aggregate_type == aggregate_type
                &&& o.name@ == node.spec_id()
                &&& o.properties@ == Map::<Seq<char>, JsonValue>::empty()
                &&& o.version == 1
                &&& objects_view(final(self).node_to_domain) == objects_view(old(self).node_to_domain).insert(node.spec_id(), o@)
            },
            relationships_view(final(self).edge_to_relationship) == relationships_view(old(self).edge_to_relationship),
            paths_view(final(self).composition_cache) == paths_view(old(self).composition_cache),
            final(self).functor_id == old(self).functor_id,
    {
        let node_id = node.id();
        match self.node_to_domain.get(node_id.as_str()) {
            Some(existing) => {
                return existing.clone();
            },
            None => {},
        }
        let domain_obj = DomainObject {
            id: Uuid::now_v7(),
            aggregate_type,
            name: node_id.clone(),
            properties: StrMap::new(),
            version: 1,
        };
        let ghost before = objects_view(self.node_to_domain);
        let stored = domain_obj.clone();
        self.node_to_domain.insert(node_id, stored);
        assert(objects_view(self.node_to_domain) =~= before.insert(node.spec_id(), domain_obj@));
        domain_obj
    }

    /// Maps an edge to a relationship between the objects its endpoints map
    /// to; none when an endpoint is not mapped.
    pub fn map_edge<E: Edge>(&mut self, edge: &E, relationship_type: RelationshipType) -> (r: Option<DomainRelationship>)
        ensures
            ({
                let nodes = objects_view(old(self).node_to_domain);
                if nodes.contains_key(edge.spec_source()) && nodes.contains_key(edge.spec_target()) {
                    &&& r matches Some(rel)
                    &&& r->Some_0@ == (RelationshipView {
                            id: edge.spec_id(),
                            source_id: nodes[edge.spec_source()].id,
                            target_id: nodes[edge.spec_target()].id,
                            relationship_type,
                            properties: Map::empty(),
                        })
                    &&& relationships_view(final(self).edge_to_relationship)
                        == relationships_view(old(self).edge_to_relationship).insert(edge.spec_id(), r->Some_0@)
                } else {
                    &&& r is None
                    &&& relationships_view(final(self).edge_to_relationship) == relationships_view(old(self).edge_to_relationship)
                }
            }),
            objects_view(final(self).node_to_domain) == objects_view(old(self).node_to_domain),
            paths_view(final(self).composition_cache) == paths_view(old(self).composition_cache),
            final(self).functor_id == old(self).functor_id,
    {
        let edge_id = edge.id();
        let source_node_id = edge.source();
        let target_node_id = edge.target();
        let source_id = match self.node_to_domain.get(source_node_id.as_str()) {
            Some(o) => o.id,
            None => return None,
        };
        let target_id = match self.node_to_domain.get(target_node_id.as_str()) {
            Some(o) => o.id,
            None => return None,
        };
        let relationship = DomainRelationship {
            id: edge_id.clone(),
            source_id,
            target_id,
            relationship_type,
            properties: StrMap::new(),
        };
        let ghost before = relationships_view(self.edge_to_relationship);
        let stored = relationship.clone();
        self.edge_to_relationship.insert(edge_id, stored);
        assert(relationships_view(self.edge_to_relationship) =~= before.insert(edge.spec_id(), relationship@));
        Some(relationship)
    }

    /// Whether a sequence of relationships composes.
    pub fn verify_composition(&self, relationships: &[DomainRelationship]) -> (b: bool)
        ensures
            b == composable(relationship_list(relationships@)),
    {
        let ghost rs = relationship_list(relationships@);
        let n = relationships.len();
        let mut i: usize = 1;
        while i < n
            invariant
                n == relationships@.len(),
                1 <= i,
                rs == relationship_list(relationships@),
                forall|k: int| 0 <= k < i - 1 && k + 1 < rs.len() ==> #[trigger] rs[k].target_id == rs[k + 1].source_id,
            decreases n - i,
        {
            if relationships[i - 1].target_id != relationships[i].source_id {
                assert(rs[i - 1].target_id != rs[i as int].source_id);
                return false;
            }
            i = i + 1;
        }
        true
    }

    /// Composes a path of edges into the chain of their relationships. A path
    /// composed before is answered from the cache with the relationships its
    /// edges have now. Otherwise every edge must have a relationship and the
    /// relationships must compose; the path is then cached. An empty path
    /// composes to nothing.
    pub fn compose_path(&mut self, path: &[String]) -> (r: Option<Vec<DomainRelationship>>)
        ensures
            ({
                let p = path@.map_values(|t: String| t@);
                let key = arrow_joined(p);
                let rels = relationships_view(old(self).edge_to_relationship);
                let cache = paths_view(old(self).composition_cache);
                if p.len() == 0 {
                    r is None && cache == paths_view(final(self).composition_cache)
                } else if cache.contains_key(key) {
                    &&& r is Some
                    &&& relationship_list(r->Some_0@) == present_relationships(cache[key], rels)
                    &&& paths_view(final(self).composition_cache) == cache
                } else if all_mapped(p, rels) && composable(present_relationships(p, rels)) {
                    &&& r is Some
                    &&& relationship_list(r->Some_0@) == present_relationships(p, rels)
                    &&& paths_view(final(self).composition_cache) == cache.insert(key, p)
                } else {
                    r is None && paths_view(final(self).composition_cache) == cache
                }
            }),
            objects_view(final(self).node_to_domain) == objects_view(old(self).node_to_domain),
            relationships_view(final(self).edge_to_relationship) == relationships_view(old(self).edge_to_relationship),
            final(self).functor_id == old(self).functor_id,
    {
        let ghost p = path@.map_values(|t: String| t@);
        let ghost rels = relationships_view(self.edge_to_relationship);
        if path.len() == 0 {
            return None;
        }
        let cache_key = join_arrows(path);
        match self.composition_cache.get(cache_key.as_str()) {
            Some(cached) => {
                return Some(lookup_present(cached, &self.edge_to_relationship));
            },
            None => {},
        }
        assert(!paths_view(self.composition_cache).contains_key(arrow_joined(p)));
        let mut composed: Vec<DomainRelationship> = Vec::new();
        let mut i: usize = 0;
        while i < path.len()
            invariant
                i <= path@.len(),
                p == path@.map_values(|t: String| t@),
                rels == relationships_view(self.edge_to_relationship),
                path@.len() > 0,
                !paths_view(self.composition_cache).contains_key(arrow_joined(p)),
                all_mapped(p.take(i as int), rels),
                relationship_list(composed@) == present_relationships(p.take(i as int), rels),
            decreases path@.len() - i,
        {
            assert(p.take(i + 1).drop_last() =~= p.take(i as int));
            assert(p.take(i + 1).last() == path@[i as int]@);
            match self.edge_to_relationship.get(path[i].as_str()) {
                Some(rel) => {
                    let ghost before = composed@;
                    composed.push(rel.clone());
                    assert(relationship_list(composed@) =~= relationship_list(before).push(rel@));
                    assert(all_mapped(p.take(i + 1), rels)) by {
                        assert forall|k: int| 0 <= k < i + 1 implies rels.contains_key(#[trigger] p.take(i + 1)[k]) by {
                            if k < i { assert(p.take(i + 1)[k] == p.take(i as int)[k]); }
                        }
                    }
                },
                None => {
                    assert(!all_mapped(p, rels)) by {
                        assert(p[i as int] == path@[i as int]@);
                    }
                    return None;
                },
            }
            i = i + 1;
        }
        assert(p.take(path@.len() as int) =~= p);
        if !self.verify_composition(composed.as_slice()) {
            return None;
        }
        let ghost cache0 = paths_view(self.composition_cache);
        let stored = copy_path(path);
        self.composition_cache.insert(cache_key, stored);
        assert(paths_view(self.composition_cache) =~= cache0.insert(arrow_joined(p), p));
        Some(composed)
    }

    /// The domain object a node maps to.
    pub fn get_domain_object(&self, node_id: &str) -> (r: Option<&DomainObject>)
        ensures
            match r {
                Some(o) => self.node_to_domain@.contains_key(node_id@) && *o == self.node_to_domain@[node_id@],
                None => !self.node_to_domain@.contains_key(node_id@),
            },
    {
        self.node_to_domain.get(node_id)
    }

    /// The relationship an edge maps to.
    pub fn get_relationship(&self, edge_id: &str) -> (r: Option<&DomainRelationship>)
        ensures
            match r {
                Some(rel) => self.edge_to_relationship@.contains_key(edge_id@) && *rel == self.edge_to_relationship@[edge_id@],
                None => !self.edge_to_relationship@.contains_key(edge_id@),
            },
    {
        self.edge_to_relationship.get(edge_id)
    }

    /// All domain objects, in the order their nodes were mapped.
    pub fn domain_objects(&self) -> (r: Vec<&DomainObject>)
        ensures
            r@.len() == self.node_to_domain.entry_seq().len(),
            forall|i: int| 0 <= i < r@.len() ==> *r@[i] == self.node_to_domain.entry_seq()[i].1,
    {
        let mut r: Vec<&DomainObject> = Vec::new();
        let mut i: usize = 0;
        while i < self.node_to_domain.len()
            invariant
                i <= self.node_to_domain.entry_seq().len(),
                r@.len() == i,
                forall|j: int| 0 <= j < i ==> *r@[j] == self.node_to_domain.entry_seq()[j].1,
            decreases self.node_to_domain.entry_seq().len() - i,
        {
            r.push(self.node_to_domain.value_at(i));
            i = i + 1;
        }
        r
    }

    /// All relationships, in the order their edges were first mapped.
    pub fn relationships(&self) -> (r: Vec<&DomainRelationship>)
        ensures
            r@.len() == self.edge_to_relationship.entry_seq().len(),
            forall|i: int| 0 <= i < r@.len() ==> *r@[i] == self.edge_to_relationship.entry_seq()[i].1,
    {
        let mut r: Vec<&DomainRelationship> = Vec::new();
        let mut i: usize = 0;
        while i < self.edge_to_relationship.len()
            invariant
                i <= self.edge_to_relationship.entry_seq().len(),
                r@.len() == i,
                forall|j: int| 0 <= j < i ==> *r@[j] == self.edge_to_relationship.entry_seq()[j].1,
            decreases self.edge_to_relationship.entry_seq().len() - i,
        {
            r.push(self.edge_to_relationship.value_at(i));
            i = i + 1;
        }
        r
    }

    /// Whether every cached path of two or more edges still composes, with
    /// the relationships its edges have now.
    pub open spec fn laws_hold(&self) -> bool {
        forall|k: Seq<char>| #[trigger] paths_view(self.composition_cache).contains_key(k)
            && paths_view(self.composition_cache)[k].len() >= 2 ==>
            composable(present_relationships(paths_view(self.composition_cache)[k], relationships_view(self.edge_to_relationship)))
    }

    /// Checks that composition is kept: every cached path of two or more
    /// edges still composes.
    pub fn verify_laws(&self) -> (b: bool)
        ensures
            b == self.laws_hold(),
    {
        proof { use_type_invariant(&self.composition_cache); self.composition_cache.lemma_view(); }
        let ghost cache = paths_view(self.composition_cache);
        let ghost kl = self.composition_cache.key_list();
        let mut i: usize = 0;
        while i < self.composition_cache.len()
            invariant
                i <= self.composition_cache.entry_seq().len(),
                cache == paths_view(self.composition_cache),
                kl == self.composition_cache.key_list(),
                kl.len() == self.composition_cache.entry_seq().len(),
                forall|j: int| 0 <= j < self.composition_cache.entry_seq().len() ==>
                    #[trigger] kl[j] == self.composition_cache.entry_seq()[j].0@
                    && self.composition_cache@.contains_key(self.composition_cache.entry_seq()[j].0@)
                    && self.composition_cache@[self.composition_cache.entry_seq()[j].0@] == self.composition_cache.entry_seq()[j].1,
                forall|k: Seq<char>| #[trigger] self.composition_cache@.contains_key(k) ==>
                    exists|j: int| 0 <= j < self.composition_cache.entry_seq().len() && self.composition_cache.entry_seq()[j].0@ == k,
                forall|j: int| 0 <= j < i ==> (#[trigger] cache[kl[j]]).len() >= 2 ==>
                    composable(present_relationships(cache[kl[j]], relationships_view(self.edge_to_relationship))),
            decreases self.composition_cache.entry_seq().len() - i,
        {
            let path = self.composition_cache.value_at(i);
            assert(kl[i as int] == self.composition_cache.entry_seq()[i as int].0@);
            assert(cache[kl[i as int]] == texts_view(*path));
            if path.len() >= 2 {
                let rels = lookup_present(path, &self.edge_to_relationship);
                if !self.verify_composition(rels.as_slice()) {
                    assert(!self.laws_hold()) by {
                        assert(paths_view(self.composition_cache).contains_key(kl[i as int]));
                    }
                    return false;
                }
            }
            i = i + 1;
        }
        assert forall|k: Seq<char>| #[trigger] paths_view(self.composition_cache).contains_key(k)
            && paths_view(self.composition_cache)[k].len() >= 2 implies
            composable(present_relationships(paths_view(self.composition_cache)[k], relationships_view(self.edge_to_relationship))) by {
            assert(self.composition_cache@.contains_key(k));
            let j = choose|j: int| 0 <= j < self.composition_cache.entry_seq().len() && self.composition_cache.entry_seq()[j].0@ == k;
            assert(kl[j] == k);
        }
        true
    }
}

impl<N: Node> Functor<N, DomainObject> for DomainFunctor {
    /// The object a node maps to; a node not mapped yet maps to a new
    /// "unmapped" object (a fresh time-ordered id, the node's id as name,
    /// version 0), which is not stored.
    fn map_object(&self, node: &N) -> (o: DomainObject)
        ensures
            self.node_to_domain@.contains_key(node.spec_id()) ==> o@ == objects_view(self.node_to_domain)[node.spec_id()],
            !self.node_to_domain@.contains_key(node.spec_id()) ==> {
                &&& uuid_nibble(o.id.0, 12) == 7
                &&& o.aggregate_type matches DomainAggregateType::Custom(s) && s@ == "unmapped"@
                &&& o.name@ == node.spec_id()
                &&& o.properties@ == Map::<Seq<char>, JsonValue>::empty()
                &&& o.version == 0
            },
    {
        let node_id = node.id();
        match self.node_to_domain.get(node_id.as_str()) {
            Some(o) => o.clone(),
            None => DomainObject {
                id: Uuid::now_v7(),
                aggregate_type: DomainAggregateType::Custom(String::from_str("unmapped")),
                name: node_id,
                properties: StrMap::new(),
                version: 0,
            },
        }
    }

    /// A morphism maps to itself.
    fn map_morphism(&self, _source: &N, _target: &N, morphism_data: &MorphismData) -> (m: MorphismData)
        ensures
            m@ == morphism_data@,
    {
        morphism_data.clone()
    }

    /// Checks composition as `verify_laws` does.
    fn verify_functor_laws(&self) -> bool
        returns
            self.laws_hold(),
    {
        self.verify_laws()
    }
}

} // verus!
