use cim_graph::functors::category::{Functor, MorphismData, NaturalTransformation, UniversalProperty};
use cim_graph::json::{JsonNumber, JsonValue};
use cim_graph::strmap::StrMap;

trait IntoJson {
    fn into_json(self) -> JsonValue;
}
impl IntoJson for JsonValue {
    fn into_json(self) -> JsonValue {
        self
    }
}
impl IntoJson for &JsonValue {
    fn into_json(self) -> JsonValue {
        self.clone()
    }
}
impl IntoJson for &str {
    fn into_json(self) -> JsonValue {
        JsonValue::from_str(self)
    }
}
impl IntoJson for String {
    fn into_json(self) -> JsonValue {
        JsonValue::from_str(&self)
    }
}
impl IntoJson for &String {
    fn into_json(self) -> JsonValue {
        JsonValue::from_str(self)
    }
}
impl IntoJson for bool {
    fn into_json(self) -> JsonValue {
        JsonValue::Bool(self)
    }
}
impl IntoJson for i32 {
    fn into_json(self) -> JsonValue {
        JsonValue::from_i64(self as i64)
    }
}
impl IntoJson for i64 {
    fn into_json(self) -> JsonValue {
        JsonValue::from_i64(self)
    }
}
impl IntoJson for u32 {
    fn into_json(self) -> JsonValue {
        JsonValue::from_u64(self as u64)
    }
}
impl IntoJson for u64 {
    fn into_json(self) -> JsonValue {
        JsonValue::from_u64(self)
    }
}
impl IntoJson for usize {
    fn into_json(self) -> JsonValue {
        JsonValue::from_u64(self as u64)
    }
}
impl IntoJson for f64 {
    fn into_json(self) -> JsonValue {
        JsonValue::Number(JsonNumber::Float(serde_json::Number::from_f64(self).unwrap()))
    }
}

fn as_real(v: &JsonValue) -> f64 {
    match v {
        JsonValue::Number(JsonNumber::Float(n)) => n.as_f64().unwrap(),
        JsonValue::Number(JsonNumber::PosInt(n)) => *n as f64,
        JsonValue::Number(JsonNumber::NegInt(n)) => *n as f64,
        _ => panic!("not a number"),
    }
}

fn j<T: IntoJson>(v: T) -> JsonValue {
    v.into_json()
}

fn obj(members: Vec<(&str, JsonValue)>) -> JsonValue {
    JsonValue::object(members.into_iter().map(|(k, v)| (k.to_string(), v)).collect())
}

fn arr(items: Vec<JsonValue>) -> JsonValue {
    JsonValue::array(items)
}

struct TestFunctor;

impl Functor<String, String> for TestFunctor {
    fn map_object(&self, obj: &String) -> String {
        format!("F({})", obj.to_string())
    }

    fn map_morphism(
        &self,
        _source: &String,
        _target: &String,
        morphism_data: &MorphismData,
    ) -> MorphismData {
        morphism_data.clone()
    }
}

#[test]
fn test_natural_transformation_creation() {
    let mut nt = NaturalTransformation::new(
        "test_nt".to_string(),
        "F".to_string(),
        "G".to_string(),
    );

    nt.add_component(
        "object_1".to_string(),
        MorphismData {
            id: "morph_1".to_string(),
            morphism_type: "component".to_string(),
            properties: StrMap::new(),
        },
    );

    assert_eq!(nt.components.len(), 1);
    assert!(nt.verify_naturality());
}

// ========== MorphismData Tests ==========

#[test]
fn test_morphism_data_creation() {
    let morphism = MorphismData {
        id: "morph_123".to_string(),
        morphism_type: "transition".to_string(),
        properties: StrMap::new(),
    };

    assert_eq!(morphism.id, "morph_123");
    assert_eq!(morphism.morphism_type, "transition");
    assert!(morphism.properties.is_empty());
}

#[test]
fn test_morphism_data_with_properties() {
    let mut props = StrMap::new();
    props.insert("weight".to_string(), j(1.5_f64));
    props.insert("label".to_string(), j("connection"));
    props.insert("priority".to_string(), j(10i64));

    let morphism = MorphismData {
        id: "morph_props".to_string(),
        morphism_type: "weighted".to_string(),
        properties: props,
    };

    assert_eq!(morphism.properties.len(), 3);
    assert_eq!(morphism.properties.get("weight").unwrap(), &j(1.5_f64));
    assert_eq!(morphism.properties.get("label").unwrap(), &j("connection"));
}

#[test]
fn test_morphism_data_clone() {
    let morphism = MorphismData {
        id: "original".to_string(),
        morphism_type: "clone_test".to_string(),
        properties: {
            let mut p = StrMap::new();
            p.insert("a".to_string(), j(1i64));
            p
        },
    };

    let cloned = morphism.clone();

    assert_eq!(cloned.id, morphism.id);
    assert_eq!(cloned.morphism_type, morphism.morphism_type);
    assert_eq!(cloned.properties.len(), morphism.properties.len());
    assert_eq!(cloned.properties.get("a"), morphism.properties.get("a"));
}

// ========== NaturalTransformation Tests ==========

#[test]
fn test_natural_transformation_empty() {
    let nt = NaturalTransformation::new(
        "empty_nt".to_string(),
        "F".to_string(),
        "G".to_string(),
    );

    assert_eq!(nt.id, "empty_nt");
    assert_eq!(nt.source_functor, "F");
    assert_eq!(nt.target_functor, "G");
    assert!(nt.components.is_empty());
    assert!(!nt.verify_naturality()); // Empty components fail naturality
}

#[test]
fn test_natural_transformation_multiple_components() {
    let mut nt = NaturalTransformation::new(
        "multi_nt".to_string(),
        "F".to_string(),
        "G".to_string(),
    );

    for i in 0..5 {
        nt.add_component(
            format!("object_{}", i.to_string()),
            MorphismData {
                id: format!("comp_{}", i.to_string()),
                morphism_type: "component".to_string(),
                properties: StrMap::new(),
            },
        );
    }

    assert_eq!(nt.components.len(), 5);
    assert!(nt.verify_naturality());
}

#[test]
fn test_natural_transformation_add_component_overwrites() {
    let mut nt = NaturalTransformation::new(
        "overwrite_nt".to_string(),
        "F".to_string(),
        "G".to_string(),
    );

    nt.add_component(
        "object_1".to_string(),
        MorphismData {
            id: "first".to_string(),
            morphism_type: "original".to_string(),
            properties: StrMap::new(),
        },
    );

    nt.add_component(
        "object_1".to_string(),
        MorphismData {
            id: "second".to_string(),
            morphism_type: "replacement".to_string(),
            properties: StrMap::new(),
        },
    );

    assert_eq!(nt.components.len(), 1);
    assert_eq!(nt.components.get("object_1").unwrap().id, "second");
    assert_eq!(nt.components.get("object_1").unwrap().morphism_type, "replacement");
}

#[test]
fn test_natural_transformation_clone() {
    let mut nt = NaturalTransformation::new(
        "clone_nt".to_string(),
        "F".to_string(),
        "G".to_string(),
    );

    nt.add_component(
        "obj".to_string(),
        MorphismData {
            id: "m".to_string(),
            morphism_type: "t".to_string(),
            properties: StrMap::new(),
        },
    );

    let cloned = nt.clone();

    assert_eq!(cloned.id, nt.id);
    assert_eq!(cloned.source_functor, nt.source_functor);
    assert_eq!(cloned.target_functor, nt.target_functor);
    assert_eq!(cloned.components.len(), nt.components.len());
}

// ========== UniversalProperty Tests ==========

#[test]
fn test_universal_property_creation() {
    let transformation = NaturalTransformation::new(
        "unique".to_string(),
        "Lan".to_string(),
        "H".to_string(),
    );

    let up = UniversalProperty {
        kan_extension_id: "kan_ext".to_string(),
        given_functor_id: "H".to_string(),
        unique_transformation: transformation,
    };

    assert_eq!(up.kan_extension_id, "kan_ext");
    assert_eq!(up.given_functor_id, "H");
    assert_eq!(up.unique_transformation.source_functor, "Lan");
}

#[test]
fn test_universal_property_clone() {
    let transformation = NaturalTransformation::new(
        "trans".to_string(),
        "F".to_string(),
        "G".to_string(),
    );

    let up = UniversalProperty {
        kan_extension_id: "ext".to_string(),
        given_functor_id: "H".to_string(),
        unique_transformation: transformation,
    };

    let cloned = up.clone();

    assert_eq!(cloned.kan_extension_id, up.kan_extension_id);
    assert_eq!(cloned.given_functor_id, up.given_functor_id);
    assert_eq!(cloned.unique_transformation.id, up.unique_transformation.id);
}

// ========== Functor Trait Tests ==========

#[test]
fn test_functor_trait_default_verify_laws() {
    let functor = TestFunctor;

    // Test map_object
    let result = functor.map_object(&"test".to_string());
    assert_eq!(result, "F(test)");

    // Test verify_functor_laws (default implementation)
    assert!(functor.verify_functor_laws());
}

// ========== Debug Implementation Tests ==========

#[test]
fn test_morphism_data_debug() {
    let morphism = MorphismData {
        id: "debug_test".to_string(),
        morphism_type: "type".to_string(),
        properties: StrMap::new(),
    };

    let debug_str = format!("{:?}", morphism);
    assert!(debug_str.contains("debug_test"));
    assert!(debug_str.contains("MorphismData"));
}

#[test]
fn test_natural_transformation_debug() {
    let nt = NaturalTransformation::new(
        "debug_nt".to_string(),
        "F".to_string(),
        "G".to_string(),
    );

    let debug_str = format!("{:?}", nt);
    assert!(debug_str.contains("debug_nt"));
    assert!(debug_str.contains("NaturalTransformation"));
}

#[test]
fn test_universal_property_debug() {
    let transformation = NaturalTransformation::new(
        "trans".to_string(),
        "F".to_string(),
        "G".to_string(),
    );

    let up = UniversalProperty {
        kan_extension_id: "debug_ext".to_string(),
        given_functor_id: "H".to_string(),
        unique_transformation: transformation,
    };

    let debug_str = format!("{:?}", up);
    assert!(debug_str.contains("debug_ext"));
    assert!(debug_str.contains("UniversalProperty"));
}
