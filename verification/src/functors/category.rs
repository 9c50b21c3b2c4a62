//! Morphisms, functors, natural transformations and the witnesses of
//! universal properties.

use vstd::prelude::*;
use vstd::string::*;
use crate::json::JsonValue;
use crate::strmap::StrMap;

verus! {

/// A structure-preserving map from a source category to a target category.
pub trait Functor<Source, Target> {
    /// The object an object maps to.
    fn map_object(&self, obj: &Source) -> Target;

    /// The morphism `F(f): F(source) → F(target)` that a morphism
    /// `f: source → target` maps to.
    fn map_morphism(&self, source: &Source, target: &Source, morphism_data: &MorphismData) -> MorphismData;

    /// Whether the mapping keeps the functor laws; unless a functor checks
    /// more, it is taken to.
    fn verify_functor_laws(&self) -> (b: bool)
        default_ensures
            b,
    {
        true
    }
}

/// An arrow between objects.
#[derive(Debug)]
pub struct MorphismData {
    /// Its id
    pub id: String,
    /// Its kind
    pub morphism_type: String,
    /// Further properties
    pub properties: StrMap<JsonValue>,
}

/// The content of a morphism.
pub struct MorphismView {
    pub id: Seq<char>,
    pub morphism_type: Seq<char>,
    pub properties: Map<Seq<char>, JsonValue>,
}

impl View for MorphismData {
    type V = MorphismView;

    open spec fn view(&self) -> MorphismView {
        MorphismView { id: self.id@, morphism_type: self.morphism_type@, properties: self.properties@ }
    }
}

/// A copy of a JSON-valued map, with the same content.
pub fn clone_json_map(m: &StrMap<JsonValue>) -> (r: StrMap<JsonValue>)
    ensures
        r@ == m@,
{
    let r = m.clone();
    assert(r@ =~= m@);
    r
}

impl Clone for MorphismData {
    fn clone(&self) -> (res: Self)
        ensures
            res@ == self@,
    {
        MorphismData { id: self.id.clone(), morphism_type: self.morphism_type.clone(), properties: clone_json_map(&self.properties) }
    }
}

/// The content of a map of morphisms.
pub open spec fn morphisms_view(m: StrMap<MorphismData>) -> Map<Seq<char>, MorphismView> {
    m@.map_values(|d: MorphismData| d@)
}

/// A natural transformation `η: F → G` between functors: a morphism
/// `η_X: F(X) → G(X)` for each object `X`.
#[derive(Debug)]
pub struct NaturalTransformation {
    /// Its id
    pub id: String,
    /// The functor it starts from
    pub source_functor: String,
    /// The functor it ends at
    pub target_functor: String,
    /// Its component morphism at each object, by object id
    pub components: StrMap<MorphismData>,
}

/// The content of a natural transformation.
pub struct TransformationView {
    pub id: Seq<char>,
    pub source_functor: Seq<char>,
    pub target_functor: Seq<char>,
    pub components: Map<Seq<char>, MorphismView>,
}

impl View for NaturalTransformation {
    type V = TransformationView;

    open spec fn view(&self) -> TransformationView {
        TransformationView {
            id: self.id@,
            source_functor: self.source_functor@,
            target_functor: self.target_functor@,
            components: morphisms_view(self.components),
        }
    }
}

impl Clone for NaturalTransformation {
    fn clone(&self) -> (res: Self)
        ensures
            res@ == self@,
    {
        let components = self.components.clone();
        assert(morphisms_view(components) =~= morphisms_view(self.components));
        NaturalTransformation {
            id: self.id.clone(),
            source_functor: self.source_functor.clone(),
            target_functor: self.target_functor.clone(),
            components,
        }
    }
}

impl NaturalTransformation {
    /// A transformation with no components yet.
    pub fn new(id: String, source_functor: String, target_functor: String) -> (t: Self)
        ensures
            t.id == id,
            t.source_functor == source_functor,
            t.target_functor == target_functor,
            t.components@ == Map::<Seq<char>, MorphismData>::empty(),
    {
        NaturalTransformation { id, source_functor, target_functor, components: StrMap::new() }
    }

    /// Sets the component at an object (replacing one that was there).
    pub fn add_component(&mut self, object_id: String, morphism: MorphismData)
        ensures
            final(self).components@ == old(self).components@.insert(object_id@, morphism),
            final(self).id == old(self).id,
            final(self).source_functor == old(self).source_functor,
            final(self).target_functor == old(self).target_functor,
    {
        self.components.insert(object_id, morphism);
    }

    /// Whether the transformation has components: the check the diagrams
    /// are taken to commute by.
    pub fn verify_naturality(&self) -> (b: bool)
        ensures
            b == (self.components@.len() > 0),
    {
        !self.components.is_empty()
    }
}

/// The witness of a Kan extension's universal property for a functor `H`:
/// the unique natural transformation from the extension to `H`.
#[derive(Debug)]
pub struct UniversalProperty {
    /// The Kan extension
    pub kan_extension_id: String,
    /// The given functor `H`
    pub given_functor_id: String,
    /// The unique transformation
    pub unique_transformation: NaturalTransformation,
}

/// The content of a universal-property witness.
pub struct WitnessView {
    pub kan_extension_id: Seq<char>,
    pub given_functor_id: Seq<char>,
    pub unique_transformation: TransformationView,
}

impl View for UniversalProperty {
    type V = WitnessView;

    open spec fn view(&self) -> WitnessView {
        WitnessView {
            kan_extension_id: self.kan_extension_id@,
            given_functor_id: self.given_functor_id@,
            unique_transformation: self.unique_transformation@,
        }
    }
}

impl Clone for UniversalProperty {
    fn clone(&self) -> (res: Self)
        ensures
            res@ == self@,
    {
        UniversalProperty {
            kan_extension_id: self.kan_extension_id.clone(),
            given_functor_id: self.given_functor_id.clone(),
            unique_transformation: self.unique_transformation.clone(),
        }
    }
}

} // verus!
