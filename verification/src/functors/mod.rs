//! Functors and Kan extensions between the category of graphs and the
//! category of domain objects.
//!
//! A functor maps objects to objects and morphisms to morphisms, keeping
//! identities and composition; a Kan extension extends a functor along
//! another in the most general way.

pub mod category;
pub mod domain_functor;
pub mod kan_extension;

pub use self::category::{Functor, MorphismData, NaturalTransformation, UniversalProperty};
