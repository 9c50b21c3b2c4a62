//! The left Kan extension `Lan_F(G)` of a functor `G: Graphs → Target`
//! along the domain functor `F: Graphs → Domain`: each domain object is
//! mapped into the target category, and for any functor `H` the unique
//! natural transformation from the extension to `H` can be witnessed.

use vstd::prelude::*;
use vstd::string::*;
use crate::functors::category::{MorphismData, NaturalTransformation, UniversalProperty, WitnessView, morphisms_view, clone_json_map};
use crate::functors::domain_functor::{DomainFunctor, DomainObject, ObjectView, objects_view, relationships_view, paths_view};
use crate::ids::{Uuid, uuid_text, uuid_nibble};
use crate::json::{JsonValue, JsonView, json_view, str_eq};
use crate::strmap::StrMap;
use crate::text::{texts_view, clone_texts, lemma_take_one_more};

verus! {

/// What a domain object maps to in the target category.
#[derive(Debug)]
pub enum TargetRepresentation {
    /// A concept of a conceptual space
    ConceptNode {
        /// The concept
        concept_id: String,
        /// Its properties
        properties: StrMap<JsonValue>,
    },
    /// An object of a category
    CategoryObject {
        /// The object
        object_id: String,
        /// Its type
        object_type: String,
        /// The morphisms from it
        outgoing_morphisms: Vec<String>,
    },
    /// Any other representation
    Custom {
        /// Its type name
        type_label: String,
        /// Its data
        data: JsonValue,
    },
}

/// The content of a target representation.
pub enum TargetView {
    ConceptNode { concept_id: Seq<char>, properties: Map<Seq<char>, JsonValue> },
    CategoryObject { object_id: Seq<char>, object_type: Seq<char>, outgoing_morphisms: Seq<Seq<char>> },
    Custom { type_label: Seq<char>, data: JsonValue },
}

impl View for TargetRepresentation {
    type V = TargetView;

    open spec fn view(&self) -> TargetView {
        match *self {
            TargetRepresentation::ConceptNode { concept_id, properties } =>
                TargetView::ConceptNode { concept_id: concept_id@, properties: properties@ },
            TargetRepresentation::CategoryObject { object_id, object_type, outgoing_morphisms } =>
                TargetView::CategoryObject { object_id: object_id@, object_type: object_type@, outgoing_morphisms: texts_view(outgoing_morphisms) },
            TargetRepresentation::Custom { type_label, data } => TargetView::Custom { type_label: type_label@, data },
        }
    }
}

impl Clone for TargetRepresentation {
    fn clone(&self) -> (res: Self)
        ensures
            res@ == self@,
    {
        match self {
            TargetRepresentation::ConceptNode { concept_id, properties } =>
                TargetRepresentation::ConceptNode { concept_id: concept_id.clone(), properties: clone_json_map(properties) },
            TargetRepresentation::CategoryObject { object_id, object_type, outgoing_morphisms } =>
                TargetRepresentation::CategoryObject {
                    object_id: object_id.clone(),
                    object_type: object_type.clone(),
                    outgoing_morphisms: clone_texts(outgoing_morphisms),
                },
            TargetRepresentation::Custom { type_label, data } =>
                TargetRepresentation::Custom { type_label: type_label.clone(), data: data.clone() },
        }
    }
}

/// A domain object with what it maps to in the target category.
#[derive(Debug)]
pub struct ExtendedMapping {
    /// Its id
    pub mapping_id: String,
    /// The domain object
    pub domain_object: DomainObject,
    /// What it maps to
    pub target_representation: TargetRepresentation,
    /// The relationships the extension keeps
    pub preserved_relationships: Vec<String>,
}

/// The content of an extended mapping.
pub struct MappingView {
    pub mapping_id: Seq<char>,
    pub domain_object: ObjectView,
    pub target_representation: TargetView,
    pub preserved_relationships: Seq<Seq<char>>,
}

impl View for ExtendedMapping {
    type V = MappingView;

    open spec fn view(&self) -> MappingView {
        MappingView {
            mapping_id: self.mapping_id@,
            domain_object: self.domain_object@,
            target_representation: self.target_representation@,
            preserved_relationships: texts_view(self.preserved_relationships),
        }
    }
}

impl Clone for ExtendedMapping {
    fn clone(&self) -> (res: Self)
        ensures
            res@ == self@,
    {
        ExtendedMapping {
            mapping_id: self.mapping_id.clone(),
            domain_object: self.domain_object.clone(),
            target_representation: self.target_representation.clone(),
            preserved_relationships: clone_texts(&self.preserved_relationships),
        }
    }
}

/// The content of a map of extended mappings.
pub open spec fn mappings_view(m: StrMap<ExtendedMapping>) -> Map<Seq<char>, MappingView> {
    m@.map_values(|x: ExtendedMapping| x@)
}

/// The content of a list of witnesses.
pub open spec fn witnesses_view(v: Seq<UniversalProperty>) -> Seq<WitnessView> {
    v.map_values(|w: UniversalProperty| w@)
}

/// A Kan extension along a domain functor.
#[derive(Debug)]
pub struct KanExtension {
    /// Its id
    pub extension_id: String,
    /// The functor it extends along
    pub base_functor: DomainFunctor,
    /// The mapping of each domain object, by the object's id text
    pub extended_mappings: StrMap<ExtendedMapping>,
    /// The universal properties witnessed so far
    pub universal_witnesses: Vec<UniversalProperty>,
}

/// Whether a component of a witness is the one the universal property
/// determines at a domain object: kind "universal_component", with the
/// domain object's id text and the mapping's id as properties.
pub open spec fn universal_component(m: MorphismData, domain_id: Seq<char>, mapping_id: Seq<char>) -> bool {
    &&& m.morphism_type@ == "universal_component"@
    &&& m.properties@.dom() == set!["domain_object_id"@, "extended_mapping_id"@]
    &&& json_view(m.properties@["domain_object_id"@]) == JsonView::Str(domain_id)
    &&& json_view(m.properties@["extended_mapping_id"@]) == JsonView::Str(mapping_id)
}

/// The texts of a list of graph object ids.
pub open spec fn keys_mapping_to(entries: Seq<(String, DomainObject)>, id_text: Seq<char>) -> Seq<Seq<char>>
    decreases entries.len(),
{
    if entries.len() == 0 {
        Seq::empty()
    } else {
        let r = keys_mapping_to(entries.drop_last(), id_text);
        if uuid_text(entries.last().1.id.0) == id_text { r.push(entries.last().0@) } else { r }
    }
}

impl KanExtension {
    /// An extension with no mappings and no witnesses yet.
    pub fn new(extension_id: String, base_functor: DomainFunctor) -> (k: Self)
        ensures
            k.extension_id == extension_id,
            k.base_functor == base_functor,
            k.extended_mappings@ == Map::<Seq<char>, ExtendedMapping>::empty(),
            k.universal_witnesses@.len() == 0,
    {
        KanExtension { extension_id, base_functor, extended_mappings: StrMap::new(), universal_witnesses: Vec::new() }
    }

    /// Maps a domain object into the target category, under a fresh
    /// time-ordered mapping id and with no preserved relationships; the
    /// mapping is stored under the object's id text.
    pub fn extend_object(&mut self, domain_object: &DomainObject, target: TargetRepresentation) -> (m: ExtendedMapping)
        ensures
            m.domain_object@ == domain_object@,
            m.target_representation@ == target@,
            m.preserved_relationships@.len() == 0,
            mappings_view(final(self).extended_mappings)
                == mappings_view(old(self).extended_mappings).insert(uuid_text(domain_object.id.0), m@),
            final(self).extension_id == old(self).extension_id,
            final(self).base_functor == old(self).base_functor,
            witnesses_view(final(self).universal_witnesses@) == witnesses_view(old(self).universal_witnesses@),
    {
        let mapping = ExtendedMapping {
            mapping_id: Uuid::now_v7().to_string(),
            domain_object: domain_object.clone(),
            target_representation: target,
            preserved_relationships: Vec::new(),
        };
        let ghost before = mappings_view(self.extended_mappings);
        let stored = mapping.clone();
        self.extended_mappings.insert(domain_object.id.to_string(), stored);
        assert(mappings_view(self.extended_mappings) =~= before.insert(uuid_text(domain_object.id.0), mapping@));
        mapping
    }

    /// Witnesses the universal property for a functor `H`: the unique
    /// transformation from the extension to `H`, with one universal
    /// component at each mapped domain object. The witness is recorded.
    pub fn witness_universal_property(&mut self, given_functor_id: String, _alpha: NaturalTransformation) -> (w: UniversalProperty)
        ensures
            w.kan_extension_id == old(self).extension_id,
            w.given_functor_id == given_functor_id,
            w.unique_transformation.source_functor == old(self).extension_id,
            w.unique_transformation.target_functor == given_functor_id,
            w.unique_transformation.components@.dom() == old(self).extended_mappings@.dom(),
            forall|k: Seq<char>| #[trigger] old(self).extended_mappings@.contains_key(k) ==>
                universal_component(w.unique_transformation.components@[k], k, old(self).extended_mappings@[k].mapping_id@),
            witnesses_view(final(self).universal_witnesses@) == witnesses_view(old(self).universal_witnesses@).push(w@),
            final(self).extension_id == old(self).extension_id,
            final(self).base_functor == old(self).base_functor,
            mappings_view(final(self).extended_mappings) == mappings_view(old(self).extended_mappings),
    {
        proof { use_type_invariant(&self.extended_mappings); self.extended_mappings.lemma_view(); }
        let mut beta = NaturalTransformation::new(Uuid::now_v7().to_string(), self.extension_id.clone(), given_functor_id.clone());
        let ghost em = self.extended_mappings@;
        let ghost kl = self.extended_mappings.key_list();
        let mut i: usize = 0;
        while i < self.extended_mappings.len()
            invariant
                i <= self.extended_mappings.entry_seq().len(),
                em == self.extended_mappings@,
                kl == self.extended_mappings.key_list(),
                kl.len() == self.extended_mappings.entry_seq().len(),
                kl.no_duplicates(),
                forall|j: int| 0 <= j < self.extended_mappings.entry_seq().len() ==>
                    #[trigger] kl[j] == self.extended_mappings.entry_seq()[j].0@
                    && em.contains_key(self.extended_mappings.entry_seq()[j].0@)
                    && em[self.extended_mappings.entry_seq()[j].0@] == self.extended_mappings.entry_seq()[j].1,
                forall|k: Seq<char>| #[trigger] em.contains_key(k) ==>
                    exists|j: int| 0 <= j < self.extended_mappings.entry_seq().len() && self.extended_mappings.entry_seq()[j].0@ == k,
                beta.source_functor == self.extension_id,
                beta.target_functor == given_functor_id,
                beta.components@.dom() == kl.take(i as int).to_set(),
                forall|k: Seq<char>| #[trigger] beta.components@.contains_key(k) ==>
                    universal_component(beta.components@[k], k, em[k].mapping_id@),
            decreases self.extended_mappings.entry_seq().len() - i,
        {
            let domain_id = self.extended_mappings.key_at(i);
            let mapping = self.extended_mappings.value_at(i);
            let mut props: StrMap<JsonValue> = StrMap::new();
            props.insert(String::from_str("domain_object_id"), JsonValue::String(domain_id.clone()));
            props.insert(String::from_str("extended_mapping_id"), JsonValue::String(mapping.mapping_id.clone()));
            proof {
                reveal_strlit("domain_object_id");
                reveal_strlit("extended_mapping_id");
                assert("domain_object_id"@[0] != "extended_mapping_id"@[0]);
                assert(props@.dom() =~= set!["domain_object_id"@, "extended_mapping_id"@]);
            }
            let component = MorphismData {
                id: Uuid::now_v7().to_string(),
                morphism_type: String::from_str("universal_component"),
                properties: props,
            };
            proof { reveal_strlit("universal_component"); }
            let ghost k = domain_id@;
            assert(kl[i as int] == k);
            beta.add_component(domain_id.clone(), component);
            proof {
                lemma_take_one_more(kl, i as int);
                assert(kl.take(i + 1).to_set() =~= kl.take(i as int).to_set().insert(k));
                assert(beta.components@.dom() =~= kl.take(i + 1).to_set());
            }
            i = i + 1;
        }
        proof {
            assert(kl.take(kl.len() as int) =~= kl);
            assert(beta.components@.dom() =~= em.dom());
        }
        let witness = UniversalProperty {
            kan_extension_id: self.extension_id.clone(),
            given_functor_id,
            unique_transformation: beta,
        };
        let ghost before = witnesses_view(self.universal_witnesses@);
        self.universal_witnesses.push(witness.clone());
        assert(witnesses_view(self.universal_witnesses@) =~= before.push(witness@));
        witness
    }

    /// Whether the extension has its defining properties: the base functor
    /// keeps composition, each mapping is stored under its object's id text,
    /// and every witness has components.
    pub open spec fn properties_hold(&self) -> bool {
        &&& self.base_functor.laws_hold()
        &&& forall|k: Seq<char>| #[trigger] self.extended_mappings@.contains_key(k) ==>
            uuid_text(self.extended_mappings@[k].domain_object.id.0) == k
        &&& forall|i: int| 0 <= i < self.universal_witnesses@.len() ==>
            (#[trigger] self.universal_witnesses@[i]).unique_transformation.components@.len() > 0
    }

    /// Checks the extension's defining properties.
    pub fn verify_kan_extension_properties(&self) -> (b: bool)
        ensures
            b == self.properties_hold(),
    {
        proof { use_type_invariant(&self.extended_mappings); self.extended_mappings.lemma_view(); }
        if !self.base_functor.verify_laws() {
            return false;
        }
        let mut i: usize = 0;
        while i < self.extended_mappings.len()
            invariant
                i <= self.extended_mappings.entry_seq().len(),
                forall|j: int| 0 <= j < self.extended_mappings.entry_seq().len() ==>
                    #[trigger] self.extended_mappings.key_list()[j] == self.extended_mappings.entry_seq()[j].0@
                    && self.extended_mappings@.contains_key(self.extended_mappings.entry_seq()[j].0@)
                    && self.extended_mappings@[self.extended_mappings.entry_seq()[j].0@] == self.extended_mappings.entry_seq()[j].1,
                forall|j: int| 0 <= j < i ==>
                    uuid_text((#[trigger] self.extended_mappings.entry_seq()[j]).1.domain_object.id.0) == self.extended_mappings.entry_seq()[j].0@,
            decreases self.extended_mappings.entry_seq().len() - i,
        {
            let key = self.extended_mappings.key_at(i);
            let mapping = self.extended_mappings.value_at(i);
            let text = mapping.domain_object.id.to_string();
            if !str_eq(text.as_str(), key.as_str()) {
                assert(self.extended_mappings.key_list()[i as int] == key@);
                return false;
            }
            i = i + 1;
        }
        assert forall|k: Seq<char>| #[trigger] self.extended_mappings@.contains_key(k) implies
            uuid_text(self.extended_mappings@[k].domain_object.id.0) == k by {
            let j = choose|j: int| 0 <= j < self.extended_mappings.entry_seq().len() && self.extended_mappings.entry_seq()[j].0@ == k;
            assert(self.extended_mappings.key_list()[j] == k);
        }
        let mut w: usize = 0;
        while w < self.universal_witnesses.len()
            invariant
                w <= self.universal_witnesses@.len(),
                forall|j: int| 0 <= j < w ==>
                    (#[trigger] self.universal_witnesses@[j]).unique_transformation.components@.len() > 0,
            decreases self.universal_witnesses@.len() - w,
        {
            if !self.universal_witnesses[w].unique_transformation.verify_naturality() {
                return false;
            }
            w = w + 1;
        }
        true
    }

    /// The mapping of a domain object, by the object's id text.
    pub fn get_extended_mapping(&self, domain_object_id: &str) -> (r: Option<&ExtendedMapping>)
        ensures
            match r {
                Some(m) => self.extended_mappings@.contains_key(domain_object_id@) && *m == self.extended_mappings@[domain_object_id@],
                None => !self.extended_mappings@.contains_key(domain_object_id@),
            },
    {
        self.extended_mappings.get(domain_object_id)
    }

    /// What a graph object maps to through the extension: the target of the
    /// mapping of the domain object it maps to, if both exist.
    pub fn compose_through_kan_extension(&self, graph_object_id: &str) -> (r: Option<TargetRepresentation>)
        ensures
            ({
                let nodes = self.base_functor.node_to_domain@;
                let maps = self.extended_mappings@;
                if nodes.contains_key(graph_object_id@) && maps.contains_key(uuid_text(nodes[graph_object_id@].id.0)) {
                    r matches Some(t) && t@ == maps[uuid_text(nodes[graph_object_id@].id.0)].target_representation@
                } else {
                    r is None
                }
            }),
    {
        let domain_obj = match self.base_functor.get_domain_object(graph_object_id) {
            Some(o) => o,
            None => return None,
        };
        let extended = match self.get_extended_mapping(domain_obj.id.to_string().as_str()) {
            Some(m) => m,
            None => return None,
        };
        Some(extended.target_representation.clone())
    }

    /// The colimit at a domain object: the ids of the graph objects that map
    /// to an object with the same id, in the order they were mapped.
    pub fn compute_colimit(&self, domain_object: &DomainObject) -> (r: Vec<String>)
        ensures
            texts_view(r) == keys_mapping_to(self.base_functor.node_to_domain.entry_seq(), uuid_text(domain_object.id.0)),
    {
        let domain_id = domain_object.id.to_string();
        let ghost entries = self.base_functor.node_to_domain.entry_seq();
        let mut r: Vec<String> = Vec::new();
        let mut i: usize = 0;
        while i < self.base_functor.node_to_domain.len()
            invariant
                i <= entries.len(),
                entries == self.base_functor.node_to_domain.entry_seq(),
                domain_id@ == uuid_text(domain_object.id.0),
                texts_view(r) == keys_mapping_to(entries.take(i as int), domain_id@),
            decreases entries.len() - i,
        {
            assert(entries.take(i + 1).drop_last() =~= entries.take(i as int));
            let key = self.base_functor.node_to_domain.key_at(i);
            let obj = self.base_functor.node_to_domain.value_at(i);
            let text = obj.id.to_string();
            if str_eq(text.as_str(), domain_id.as_str()) {
                let ghost before = r@;
                r.push(key.clone());
                assert(texts_view(r) =~= texts_view_of_push(before, key@));
            }
            i = i + 1;
        }
        assert(entries.take(entries.len() as int) =~= entries);
        r
    }
}

/// The content of a list of texts with one more.
pub open spec fn texts_view_of_push(v: Seq<String>, s: Seq<char>) -> Seq<Seq<char>> {
    v.map_values(|t: String| t@).push(s)
}

/// Builds a Kan extension step by step.
#[derive(Debug)]
pub struct KanExtensionBuilder {
    extension_id: String,
    base_functor: Option<DomainFunctor>,
    extended_mappings: Vec<(DomainObject, TargetRepresentation)>,
}

/// The object and target of the last of a list of mappings whose object has
/// a given id text.
pub open spec fn last_mapping_for(ms: Seq<(DomainObject, TargetRepresentation)>, key: Seq<char>) -> Option<(ObjectView, TargetView)>
    decreases ms.len(),
{
    if ms.len() == 0 {
        None
    } else if uuid_text(ms.last().0.id.0) == key {
        Some((ms.last().0@, ms.last().1@))
    } else {
        last_mapping_for(ms.drop_last(), key)
    }
}

impl KanExtensionBuilder {
    /// The base functor set so far.
    pub closed spec fn base(&self) -> Option<DomainFunctor> {
        self.base_functor
    }

    /// The mappings added so far, in order.
    pub closed spec fn mappings(&self) -> Seq<(DomainObject, TargetRepresentation)> {
        self.extended_mappings@
    }

    /// The id the extension will have.
    pub closed spec fn id(&self) -> Seq<char> {
        self.extension_id@
    }

    /// A builder with no base functor and no mappings.
    pub fn new(extension_id: String) -> (b: Self)
        ensures
            b.id() == extension_id@,
            b.base() is None,
            b.mappings().len() == 0,
    {
        KanExtensionBuilder { extension_id, base_functor: None, extended_mappings: Vec::new() }
    }

    /// Sets the base functor.
    pub fn with_base_functor(self, functor: DomainFunctor) -> (b: Self)
        ensures
            b.id() == self.id(),
            b.base() == Some(functor),
            b.mappings() == self.mappings(),
    {
        let mut b = self;
        b.base_functor = Some(functor);
        b
    }

    /// Adds a mapping.
    pub fn with_mapping(self, domain_object: DomainObject, target: TargetRepresentation) -> (b: Self)
        ensures
            b.id() == self.id(),
            b.base() == self.base(),
            b.mappings() == self.mappings().push((domain_object, target)),
    {
        let mut b = self;
        b.extended_mappings.push((domain_object, target));
        b
    }

    /// Builds the extension: its mappings are added in order (a later one
    /// replacing an earlier one for the same object id). A base functor must
    /// have been set.
    pub fn build(self) -> (r: Result<KanExtension, String>)
        ensures
            match self.base() {
                None => r matches Err(m) && m@ == "Base functor not set"@,
                Some(f) => {
                    &&& r is Ok
                    &&& r->Ok_0.extension_id@ == self.id()
                    &&& r->Ok_0.base_functor == f
                    &&& r->Ok_0.universal_witnesses@.len() == 0
                    &&& forall|k: Seq<char>| #[trigger] r->Ok_0.extended_mappings@.contains_key(k)
                        <==> last_mapping_for(self.mappings(), k) is Some
                    &&& forall|k: Seq<char>| #[trigger] r->Ok_0.extended_mappings@.contains_key(k) ==>
                        last_mapping_for(self.mappings(), k) == Some((
                            r->Ok_0.extended_mappings@[k].domain_object@,
                            r->Ok_0.extended_mappings@[k].target_representation@))
                },
            },
    {
        let KanExtensionBuilder { extension_id, base_functor, extended_mappings } = self;
        let base = match base_functor {
            Some(f) => f,
            None => return Err(String::from_str("Base functor not set")),
        };
        let mut extension = KanExtension::new(extension_id, base);
        let ghost ms = extended_mappings@;
        let mut rest = extended_mappings;
        let ghost mut i: int = 0;
        assert(ms.skip(0) =~= ms);
        while rest.len() > 0
            invariant
                0 <= i <= ms.len(),
                rest@ == ms.skip(i),
                extension.extension_id@ == self.id(),
                extension.base_functor == self.base()->Some_0,
                extension.universal_witnesses@.len() == 0,
                forall|k: Seq<char>| #[trigger] extension.extended_mappings@.contains_key(k)
                    <==> last_mapping_for(ms.take(i), k) is Some,
                forall|k: Seq<char>| #[trigger] extension.extended_mappings@.contains_key(k) ==>
                    last_mapping_for(ms.take(i), k) == Some((
                        extension.extended_mappings@[k].domain_object@,
                        extension.extended_mappings@[k].target_representation@)),
            decreases rest@.len(),
        {
            let (d, t) = rest.remove(0);
            proof {
                assert(ms[i] == (d, t));
                assert(ms.take(i + 1).drop_last() =~= ms.take(i));
                assert(ms.take(i + 1).last() == (d, t));
            }
            let ghost before = mappings_view(extension.extended_mappings);
            let ghost old_m = extension.extended_mappings@;
            let m = extension.extend_object(&d, t);
            proof {
                let key = uuid_text(d.id.0);
                assert forall|k: Seq<char>| #[trigger] extension.extended_mappings@.contains_key(k)
                    <==> last_mapping_for(ms.take(i + 1), k) is Some by {
                    assert(mappings_view(extension.extended_mappings).contains_key(k) == extension.extended_mappings@.contains_key(k));
                    assert(before.contains_key(k) == old_m.contains_key(k));
                }
                assert forall|k: Seq<char>| #[trigger] extension.extended_mappings@.contains_key(k) implies
                    last_mapping_for(ms.take(i + 1), k) == Some((
                        extension.extended_mappings@[k].domain_object@,
                        extension.extended_mappings@[k].target_representation@)) by {
                    assert(mappings_view(extension.extended_mappings)[k] == extension.extended_mappings@[k]@);
                    if k != key {
                        assert(before.contains_key(k));
                        assert(before[k] == old_m[k]@);
                        assert(old_m.contains_key(k));
                    }
                }
                assert(rest@ =~= ms.skip(i + 1));
                assert(witnesses_view(extension.universal_witnesses@).len() == extension.universal_witnesses@.len());
                i = i + 1;
            }
        }
        assert(ms.take(ms.len() as int) =~= ms);
        Ok(extension)
    }
}

} // verus!
