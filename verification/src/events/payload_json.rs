//! The JSON form of event payloads, as `serde` writes these enums (each
//! variant as an object with one member named after it; the fields of a
//! variant as an object whose members are in key order, as `serde_json`'s
//! map keeps them; ids as their hyphenated text).

use vstd::prelude::*;
use vstd::string::*;
use crate::events::graph_events::{
    EventPayload, GenericPayload, IpldPayload, ContextPayload, WorkflowPayload, ConceptPayload,
    ComposedPayload,
};
use crate::ids::{Uuid, uuid_text};
use crate::json::{JsonValue, JsonView, JsonNumber, json_view, members_view};

verus! {

/// An object with one member.
pub open spec fn tagged(tag: Seq<char>, v: JsonView) -> JsonView {
    JsonView::Object(seq![(tag, v)])
}

/// A text as JSON.
pub open spec fn jstr(s: String) -> JsonView {
    JsonView::Str(s@)
}

/// A UUID as JSON: its hyphenated text.
pub open spec fn juuid(u: Uuid) -> JsonView {
    JsonView::Str(uuid_text(u.0))
}

/// Named real numbers as JSON: an array of `[name, value]` pairs.
pub open spec fn named_reals_json(v: Seq<(String, JsonValue)>) -> JsonView {
    JsonView::Array(v.map_values(|p: (String, JsonValue)| JsonView::Array(seq![JsonView::Str(p.0@), json_view(p.1)])))
}

/// The JSON form of an IPLD payload.
pub open spec fn ipld_json(p: IpldPayload) -> JsonView {
    match p {
        IpldPayload::CidAdded { cid, codec, size, data } => tagged("CidAdded"@, JsonView::Object(seq![
            ("cid"@, jstr(cid)), ("codec"@, jstr(codec)), ("data"@, json_view(data)),
            ("size"@, JsonView::Number(JsonNumber::PosInt(size)))])),
        IpldPayload::CidLinkAdded { cid, link_name, target_cid } => tagged("CidLinkAdded"@, JsonView::Object(seq![
            ("cid"@, jstr(cid)), ("link_name"@, jstr(link_name)), ("target_cid"@, jstr(target_cid))])),
        IpldPayload::CidPinned { cid, recursive } => tagged("CidPinned"@, JsonView::Object(seq![
            ("cid"@, jstr(cid)), ("recursive"@, JsonView::Bool(recursive))])),
        IpldPayload::CidUnpinned { cid } => tagged("CidUnpinned"@, JsonView::Object(seq![("cid"@, jstr(cid))])),
    }
}

/// The JSON form of a context payload.
pub open spec fn context_json(p: ContextPayload) -> JsonView {
    match p {
        ContextPayload::BoundedContextCreated { context_id, name, description } => tagged("BoundedContextCreated"@,
            JsonView::Object(seq![("context_id"@, jstr(context_id)), ("description"@, jstr(description)), ("name"@, jstr(name))])),
        ContextPayload::AggregateAdded { context_id, aggregate_id, aggregate_type } => tagged("AggregateAdded"@,
            JsonView::Object(seq![("aggregate_id"@, juuid(aggregate_id)), ("aggregate_type"@, jstr(aggregate_type)),
                ("context_id"@, jstr(context_id))])),
        ContextPayload::EntityAdded { aggregate_id, entity_id, entity_type, properties } => tagged("EntityAdded"@,
            JsonView::Object(seq![("aggregate_id"@, juuid(aggregate_id)), ("entity_id"@, juuid(entity_id)),
                ("entity_type"@, jstr(entity_type)), ("properties"@, json_view(properties))])),
        ContextPayload::ValueObjectAttached { parent_id, value_type, value_data } => tagged("ValueObjectAttached"@,
            JsonView::Object(seq![("parent_id"@, juuid(parent_id)), ("value_data"@, json_view(value_data)),
                ("value_type"@, jstr(value_type))])),
        ContextPayload::RelationshipEstablished { source_id, target_id, relationship_type } => tagged("RelationshipEstablished"@,
            JsonView::Object(seq![("relationship_type"@, jstr(relationship_type)), ("source_id"@, juuid(source_id)),
                ("target_id"@, juuid(target_id))])),
    }
}

/// The JSON form of a workflow payload.
pub open spec fn workflow_json(p: WorkflowPayload) -> JsonView {
    match p {
        WorkflowPayload::WorkflowDefined { workflow_id, name, version } => tagged("WorkflowDefined"@,
            JsonView::Object(seq![("name"@, jstr(name)), ("version"@, jstr(version)), ("workflow_id"@, juuid(workflow_id))])),
        WorkflowPayload::StateAdded { workflow_id, state_id, state_type } => tagged("StateAdded"@,
            JsonView::Object(seq![("state_id"@, jstr(state_id)), ("state_type"@, jstr(state_type)), ("workflow_id"@, juuid(workflow_id))])),
        WorkflowPayload::TransitionAdded { workflow_id, from_state, to_state, trigger } => tagged("TransitionAdded"@,
            JsonView::Object(seq![("from_state"@, jstr(from_state)), ("to_state"@, jstr(to_state)), ("trigger"@, jstr(trigger)),
                ("workflow_id"@, juuid(workflow_id))])),
        WorkflowPayload::InstanceCreated { workflow_id, instance_id, initial_state } => tagged("InstanceCreated"@,
            JsonView::Object(seq![("initial_state"@, jstr(initial_state)), ("instance_id"@, juuid(instance_id)),
                ("workflow_id"@, juuid(workflow_id))])),
        WorkflowPayload::StateTransitioned { instance_id, from_state, to_state } => tagged("StateTransitioned"@,
            JsonView::Object(seq![("from_state"@, jstr(from_state)), ("instance_id"@, juuid(instance_id)), ("to_state"@, jstr(to_state))])),
    }
}

/// The JSON form of a concept payload.
pub open spec fn concept_json(p: ConceptPayload) -> JsonView {
    match p {
        ConceptPayload::ConceptDefined { concept_id, name, definition } => tagged("ConceptDefined"@,
            JsonView::Object(seq![("concept_id"@, jstr(concept_id)), ("definition"@, jstr(definition)), ("name"@, jstr(name))])),
        ConceptPayload::PropertiesAdded { concept_id, properties } => tagged("PropertiesAdded"@,
            JsonView::Object(seq![("concept_id"@, jstr(concept_id)), ("properties"@, named_reals_json(properties@))])),
        ConceptPayload::RelationAdded { source_concept, target_concept, relation_type, strength } => tagged("RelationAdded"@,
            JsonView::Object(seq![("relation_type"@, jstr(relation_type)), ("source_concept"@, jstr(source_concept)),
                ("strength"@, json_view(strength)), ("target_concept"@, jstr(target_concept))])),
        ConceptPayload::PropertyInferred { concept_id, property_name, inferred_value, confidence } => tagged("PropertyInferred"@,
            JsonView::Object(seq![("concept_id"@, jstr(concept_id)), ("confidence"@, json_view(confidence)),
                ("inferred_value"@, json_view(inferred_value)), ("property_name"@, jstr(property_name))])),
    }
}

/// The JSON form of a composed-graph payload.
pub open spec fn composed_json(p: ComposedPayload) -> JsonView {
    match p {
        ComposedPayload::SubGraphAdded { subgraph_id, graph_type, namespace } => tagged("SubGraphAdded"@,
            JsonView::Object(seq![("graph_type"@, jstr(graph_type)), ("namespace"@, jstr(namespace)), ("subgraph_id"@, juuid(subgraph_id))])),
        ComposedPayload::CrossGraphLinkCreated { source_graph, source_node, target_graph, target_node } => tagged("CrossGraphLinkCreated"@,
            JsonView::Object(seq![("source_graph"@, juuid(source_graph)), ("source_node"@, jstr(source_node)),
                ("target_graph"@, juuid(target_graph)), ("target_node"@, jstr(target_node))])),
    }
}

/// The JSON form of an event payload.
pub open spec fn payload_json(p: EventPayload) -> JsonView {
    match p {
        EventPayload::Generic(g) => tagged("Generic"@,
            JsonView::Object(seq![("data"@, json_view(g.data)), ("event_type"@, jstr(g.event_type))])),
        EventPayload::Ipld(i) => tagged("Ipld"@, ipld_json(i)),
        EventPayload::Context(c) => tagged("Context"@, context_json(c)),
        EventPayload::Workflow(w) => tagged("Workflow"@, workflow_json(w)),
        EventPayload::Concept(c) => tagged("Concept"@, concept_json(c)),
        EventPayload::Composed(c) => tagged("Composed"@, composed_json(c)),
    }
}

/// A member of an object.
fn member(key: &str, value: JsonValue) -> (m: (String, JsonValue))
    ensures
        m.0@ == key@,
        m.1 == value,
{
    (String::from_str(key), value)
}

/// A text as JSON.
fn text_json(s: &String) -> (v: JsonValue)
    ensures
        json_view(v) == jstr(*s),
{
    JsonValue::String(s.clone())
}

/// A UUID as JSON.
fn uuid_json(u: Uuid) -> (v: JsonValue)
    ensures
        json_view(v) == juuid(u),
{
    JsonValue::String(u.to_string())
}

/// An object with one member.
fn tag(key: &str, value: JsonValue) -> (v: JsonValue)
    ensures
        json_view(v) == tagged(key@, json_view(value)),
{
    let mut members: Vec<(String, JsonValue)> = Vec::new();
    members.push(member(key, value));
    let v = JsonValue::object(members);
    assert(members_view(members@) =~= seq![(key@, json_view(value))]);
    v
}

/// Named real numbers as JSON.
fn named_reals(v: &Vec<(String, JsonValue)>) -> (j: JsonValue)
    ensures
        json_view(j) == named_reals_json(v@),
{
    let mut items: Vec<JsonValue> = Vec::new();
    let mut i: usize = 0;
    while i < v.len()
        invariant
            i <= v@.len(),
            items@.map_values(|x: JsonValue| json_view(x))
                == v@.take(i as int).map_values(|p: (String, JsonValue)| JsonView::Array(seq![JsonView::Str(p.0@), json_view(p.1)])),
        decreases v@.len() - i,
    {
        let mut pair: Vec<JsonValue> = Vec::new();
        pair.push(JsonValue::String(v[i].0.clone()));
        pair.push(v[i].1.clone());
        let a = JsonValue::array(pair);
        assert(pair@.map_values(|x: JsonValue| json_view(x)) =~= seq![JsonView::Str(v@[i as int].0@), json_view(v@[i as int].1)]);
        let ghost before = items@;
        items.push(a);
        assert(items@.map_values(|x: JsonValue| json_view(x)) =~= before.map_values(|x: JsonValue| json_view(x)).push(json_view(a)));
        assert(v@.take(i + 1) =~= v@.take(i as int).push(v@[i as int]));
        assert(v@.take(i + 1).map_values(|p: (String, JsonValue)| JsonView::Array(seq![JsonView::Str(p.0@), json_view(p.1)]))
            =~= v@.take(i as int).map_values(|p: (String, JsonValue)| JsonView::Array(seq![JsonView::Str(p.0@), json_view(p.1)]))
                .push(JsonView::Array(seq![JsonView::Str(v@[i as int].0@), json_view(v@[i as int].1)])));
        i = i + 1;
    }
    assert(v@.take(v@.len() as int) =~= v@);
    JsonValue::array(items)
}

/// An object with the given members, in order.
fn object_of(members: Vec<(String, JsonValue)>) -> (v: JsonValue)
    ensures
        json_view(v) == JsonView::Object(members_view(members@)),
{
    JsonValue::object(members)
}

impl EventPayload {
    /// The JSON form of this payload, as `serde_json::to_value` gives it.
    pub fn to_json(&self) -> (v: JsonValue)
        ensures
            json_view(v) == payload_json(*self),
    {
        proof {
            reveal_strlit("Generic"); reveal_strlit("Ipld"); reveal_strlit("Context");
            reveal_strlit("Workflow"); reveal_strlit("Concept"); reveal_strlit("Composed");
        }
        match self {
            EventPayload::Generic(g) => {
                let ms = vec![member("data", g.data.clone()), member("event_type", text_json(&g.event_type))];
                let o = object_of(ms);
                assert(members_view(ms@) =~= seq![("data"@, json_view(g.data)), ("event_type"@, jstr(g.event_type))]);
                tag("Generic", o)
            },
            EventPayload::Ipld(i) => tag("Ipld", ipld_to_json(i)),
            EventPayload::Context(c) => tag("Context", context_to_json(c)),
            EventPayload::Workflow(w) => tag("Workflow", workflow_to_json(w)),
            EventPayload::Concept(c) => tag("Concept", concept_to_json(c)),
            EventPayload::Composed(c) => tag("Composed", composed_to_json(c)),
        }
    }
}

/// The JSON form of an IPLD payload.
fn ipld_to_json(p: &IpldPayload) -> (v: JsonValue)
    ensures
        json_view(v) == ipld_json(*p),
{
    match p {
        IpldPayload::CidAdded { cid, codec, size, data } => {
            let ms = vec![member("cid", text_json(cid)), member("codec", text_json(codec)),
                member("data", data.clone()), member("size", JsonValue::Number(JsonNumber::PosInt(*size)))];
            let o = object_of(ms);
            assert(members_view(ms@) =~= seq![("cid"@, jstr(*cid)), ("codec"@, jstr(*codec)), ("data"@, json_view(*data)),
                ("size"@, JsonView::Number(JsonNumber::PosInt(*size)))]);
            tag("CidAdded", o)
        },
        IpldPayload::CidLinkAdded { cid, link_name, target_cid } => {
            let ms = vec![member("cid", text_json(cid)), member("link_name", text_json(link_name)),
                member("target_cid", text_json(target_cid))];
            let o = object_of(ms);
            assert(members_view(ms@) =~= seq![("cid"@, jstr(*cid)), ("link_name"@, jstr(*link_name)), ("target_cid"@, jstr(*target_cid))]);
            tag("CidLinkAdded", o)
        },
        IpldPayload::CidPinned { cid, recursive } => {
            let ms = vec![member("cid", text_json(cid)), member("recursive", JsonValue::Bool(*recursive))];
            let o = object_of(ms);
            assert(members_view(ms@) =~= seq![("cid"@, jstr(*cid)), ("recursive"@, JsonView::Bool(*recursive))]);
            tag("CidPinned", o)
        },
        IpldPayload::CidUnpinned { cid } => {
            let ms = vec![member("cid", text_json(cid))];
            let o = object_of(ms);
            assert(members_view(ms@) =~= seq![("cid"@, jstr(*cid))]);
            tag("CidUnpinned", o)
        },
    }
}

/// The JSON form of a context payload.
fn context_to_json(p: &ContextPayload) -> (v: JsonValue)
    ensures
        json_view(v) == context_json(*p),
{
    match p {
        ContextPayload::BoundedContextCreated { context_id, name, description } => {
            let ms = vec![member("context_id", text_json(context_id)), member("description", text_json(description)),
                member("name", text_json(name))];
            let o = object_of(ms);
            assert(members_view(ms@) =~= seq![("context_id"@, jstr(*context_id)), ("description"@, jstr(*description)), ("name"@, jstr(*name))]);
            tag("BoundedContextCreated", o)
        },
        ContextPayload::AggregateAdded { context_id, aggregate_id, aggregate_type } => {
            let ms = vec![member("aggregate_id", uuid_json(*aggregate_id)), member("aggregate_type", text_json(aggregate_type)),
                member("context_id", text_json(context_id))];
            let o = object_of(ms);
            assert(members_view(ms@) =~= seq![("aggregate_id"@, juuid(*aggregate_id)), ("aggregate_type"@, jstr(*aggregate_type)),
                ("context_id"@, jstr(*context_id))]);
            tag("AggregateAdded", o)
        },
        ContextPayload::EntityAdded { aggregate_id, entity_id, entity_type, properties } => {
            let ms = vec![member("aggregate_id", uuid_json(*aggregate_id)), member("entity_id", uuid_json(*entity_id)),
                member("entity_type", text_json(entity_type)), member("properties", properties.clone())];
            let o = object_of(ms);
            assert(members_view(ms@) =~= seq![("aggregate_id"@, juuid(*aggregate_id)), ("entity_id"@, juuid(*entity_id)),
                ("entity_type"@, jstr(*entity_type)), ("properties"@, json_view(*properties))]);
            tag("EntityAdded", o)
        },
        ContextPayload::ValueObjectAttached { parent_id, value_type, value_data } => {
            let ms = vec![member("parent_id", uuid_json(*parent_id)), member("value_data", value_data.clone()),
                member("value_type", text_json(value_type))];
            let o = object_of(ms);
            assert(members_view(ms@) =~= seq![("parent_id"@, juuid(*parent_id)), ("value_data"@, json_view(*value_data)),
                ("value_type"@, jstr(*value_type))]);
            tag("ValueObjectAttached", o)
        },
        ContextPayload::RelationshipEstablished { source_id, target_id, relationship_type } => {
            let ms = vec![member("relationship_type", text_json(relationship_type)), member("source_id", uuid_json(*source_id)),
                member("target_id", uuid_json(*target_id))];
            let o = object_of(ms);
            assert(members_view(ms@) =~= seq![("relationship_type"@, jstr(*relationship_type)), ("source_id"@, juuid(*source_id)),
                ("target_id"@, juuid(*target_id))]);
            tag("RelationshipEstablished", o)
        },
    }
}

/// The JSON form of a workflow payload.
fn workflow_to_json(p: &WorkflowPayload) -> (v: JsonValue)
    ensures
        json_view(v) == workflow_json(*p),
{
    match p {
        WorkflowPayload::WorkflowDefined { workflow_id, name, version } => {
            let ms = vec![member("name", text_json(name)), member("version", text_json(version)),
                member("workflow_id", uuid_json(*workflow_id))];
            let o = object_of(ms);
            assert(members_view(ms@) =~= seq![("name"@, jstr(*name)), ("version"@, jstr(*version)), ("workflow_id"@, juuid(*workflow_id))]);
            tag("WorkflowDefined", o)
        },
        WorkflowPayload::StateAdded { workflow_id, state_id, state_type } => {
            let ms = vec![member("state_id", text_json(state_id)), member("state_type", text_json(state_type)),
                member("workflow_id", uuid_json(*workflow_id))];
            let o = object_of(ms);
            assert(members_view(ms@) =~= seq![("state_id"@, jstr(*state_id)), ("state_type"@, jstr(*state_type)), ("workflow_id"@, juuid(*workflow_id))]);
            tag("StateAdded", o)
        },
        WorkflowPayload::TransitionAdded { workflow_id, from_state, to_state, trigger } => {
            let ms = vec![member("from_state", text_json(from_state)), member("to_state", text_json(to_state)),
                member("trigger", text_json(trigger)), member("workflow_id", uuid_json(*workflow_id))];
            let o = object_of(ms);
            assert(members_view(ms@) =~= seq![("from_state"@, jstr(*from_state)), ("to_state"@, jstr(*to_state)), ("trigger"@, jstr(*trigger)),
                ("workflow_id"@, juuid(*workflow_id))]);
            tag("TransitionAdded", o)
        },
        WorkflowPayload::InstanceCreated { workflow_id, instance_id, initial_state } => {
            let ms = vec![member("initial_state", text_json(initial_state)), member("instance_id", uuid_json(*instance_id)),
                member("workflow_id", uuid_json(*workflow_id))];
            let o = object_of(ms);
            assert(members_view(ms@) =~= seq![("initial_state"@, jstr(*initial_state)), ("instance_id"@, juuid(*instance_id)),
                ("workflow_id"@, juuid(*workflow_id))]);
            tag("InstanceCreated", o)
        },
        WorkflowPayload::StateTransitioned { instance_id, from_state, to_state } => {
            let ms = vec![member("from_state", text_json(from_state)), member("instance_id", uuid_json(*instance_id)),
                member("to_state", text_json(to_state))];
            let o = object_of(ms);
            assert(members_view(ms@) =~= seq![("from_state"@, jstr(*from_state)), ("instance_id"@, juuid(*instance_id)), ("to_state"@, jstr(*to_state))]);
            tag("StateTransitioned", o)
        },
    }
}

/// The JSON form of a concept payload.
fn concept_to_json(p: &ConceptPayload) -> (v: JsonValue)
    ensures
        json_view(v) == concept_json(*p),
{
    match p {
        ConceptPayload::ConceptDefined { concept_id, name, definition } => {
            let ms = vec![member("concept_id", text_json(concept_id)), member("definition", text_json(definition)),
                member("name", text_json(name))];
            let o = object_of(ms);
            assert(members_view(ms@) =~= seq![("concept_id"@, jstr(*concept_id)), ("definition"@, jstr(*definition)), ("name"@, jstr(*name))]);
            tag("ConceptDefined", o)
        },
        ConceptPayload::PropertiesAdded { concept_id, properties } => {
            let ms = vec![member("concept_id", text_json(concept_id)), member("properties", named_reals(properties))];
            let o = object_of(ms);
            assert(members_view(ms@) =~= seq![("concept_id"@, jstr(*concept_id)), ("properties"@, named_reals_json(properties@))]);
            tag("PropertiesAdded", o)
        },
        ConceptPayload::RelationAdded { source_concept, target_concept, relation_type, strength } => {
            let ms = vec![member("relation_type", text_json(relation_type)), member("source_concept", text_json(source_concept)),
                member("strength", strength.clone()), member("target_concept", text_json(target_concept))];
            let o = object_of(ms);
            assert(members_view(ms@) =~= seq![("relation_type"@, jstr(*relation_type)), ("source_concept"@, jstr(*source_concept)),
                ("strength"@, json_view(*strength)), ("target_concept"@, jstr(*target_concept))]);
            tag("RelationAdded", o)
        },
        ConceptPayload::PropertyInferred { concept_id, property_name, inferred_value, confidence } => {
            let ms = vec![member("concept_id", text_json(concept_id)), member("confidence", confidence.clone()),
                member("inferred_value", inferred_value.clone()), member("property_name", text_json(property_name))];
            let o = object_of(ms);
            assert(members_view(ms@) =~= seq![("concept_id"@, jstr(*concept_id)), ("confidence"@, json_view(*confidence)),
                ("inferred_value"@, json_view(*inferred_value)), ("property_name"@, jstr(*property_name))]);
            tag("PropertyInferred", o)
        },
    }
}

/// The JSON form of a composed-graph payload.
fn composed_to_json(p: &ComposedPayload) -> (v: JsonValue)
    ensures
        json_view(v) == composed_json(*p),
{
    match p {
        ComposedPayload::SubGraphAdded { subgraph_id, graph_type, namespace } => {
            let ms = vec![member("graph_type", text_json(graph_type)), member("namespace", text_json(namespace)),
                member("subgraph_id", uuid_json(*subgraph_id))];
            let o = object_of(ms);
            assert(members_view(ms@) =~= seq![("graph_type"@, jstr(*graph_type)), ("namespace"@, jstr(*namespace)), ("subgraph_id"@, juuid(*subgraph_id))]);
            tag("SubGraphAdded", o)
        },
        ComposedPayload::CrossGraphLinkCreated { source_graph, source_node, target_graph, target_node } => {
            let ms = vec![member("source_graph", uuid_json(*source_graph)), member("source_node", text_json(source_node)),
                member("target_graph", uuid_json(*target_graph)), member("target_node", text_json(target_node))];
            let o = object_of(ms);
            assert(members_view(ms@) =~= seq![("source_graph"@, juuid(*source_graph)), ("source_node"@, jstr(*source_node)),
                ("target_graph"@, juuid(*target_graph)), ("target_node"@, jstr(*target_node))]);
            tag("CrossGraphLinkCreated", o)
        },
    }
}

} // verus!
