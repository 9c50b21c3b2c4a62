//! Stream subjects of graph events: `cim.graph.{type}.{aggregate}.{event}`,
//! the subscription patterns over them, and parsing a subject back.

use vstd::prelude::*;
use vstd::string::*;
use crate::ids::{Uuid, uuid_text, uuid_parse_result, lemma_uuid_text_has_no_dot};
use crate::json::str_eq;
use crate::text::{split_dots, split_on_dots, dot_free, lemma_split_dots_append, texts_view};

verus! {

/// The root of every graph subject.
pub const GRAPH_ROOT: &'static str = "cim.graph";

/// Graph types, as subject segments.
#[derive(Debug, Clone, Copy, PartialEq, Eq, Structural)]
pub enum GraphType {
    /// InterPlanetary Linked Data graphs
    Ipld,
    /// Domain-driven design context graphs
    Context,
    /// State machine workflow graphs
    Workflow,
    /// Concept (knowledge) graphs
    Concept,
    /// Graphs composed of several graphs
    Composed,
}

/// The subject segment of a graph type.
pub open spec fn graph_segment(t: GraphType) -> Seq<char> {
    match t {
        GraphType::Ipld => "ipld"@,
        GraphType::Context => "context"@,
        GraphType::Workflow => "workflow"@,
        GraphType::Concept => "concept"@,
        GraphType::Composed => "composed"@,
    }
}

impl GraphType {
    /// The subject segment of this graph type.
    pub fn as_str(&self) -> (s: &'static str)
        ensures
            s@ == graph_segment(*self),
    {
        match self {
            GraphType::Ipld => "ipld",
            GraphType::Context => "context",
            GraphType::Workflow => "workflow",
            GraphType::Concept => "concept",
            GraphType::Composed => "composed",
        }
    }
}

/// Event types, as subject segments.
#[derive(Debug, Clone, Copy, PartialEq, Eq, Structural)]
pub enum EventType {
    /// Created
    Created,
    /// Updated
    Updated,
    /// Deleted
    Deleted,
    /// A node was added
    NodeAdded,
    /// A node was removed
    NodeRemoved,
    /// An edge was added
    EdgeAdded,
    /// An edge was removed
    EdgeRemoved,
    /// A state machine changed state
    StateChanged,
}

/// The subject segment of an event type.
pub open spec fn event_segment(e: EventType) -> Seq<char> {
    match e {
        EventType::Created => "created"@,
        EventType::Updated => "updated"@,
        EventType::Deleted => "deleted"@,
        EventType::NodeAdded => "node_added"@,
        EventType::NodeRemoved => "node_removed"@,
        EventType::EdgeAdded => "edge_added"@,
        EventType::EdgeRemoved => "edge_removed"@,
        EventType::StateChanged => "state_changed"@,
    }
}

impl EventType {
    /// The subject segment of this event type.
    pub fn as_str(&self) -> (s: &'static str)
        ensures
            s@ == event_segment(*self),
    {
        match self {
            EventType::Created => "created",
            EventType::Updated => "updated",
            EventType::Deleted => "deleted",
            EventType::NodeAdded => "node_added",
            EventType::NodeRemoved => "node_removed",
            EventType::EdgeAdded => "edge_added",
            EventType::EdgeRemoved => "edge_removed",
            EventType::StateChanged => "state_changed",
        }
    }
}

/// The graph type a subject segment names.
pub open spec fn graph_type_named(s: Seq<char>) -> Option<GraphType> {
    if s == "ipld"@ {
        Some(GraphType::Ipld)
    } else if s == "context"@ {
        Some(GraphType::Context)
    } else if s == "workflow"@ {
        Some(GraphType::Workflow)
    } else if s == "concept"@ {
        Some(GraphType::Concept)
    } else if s == "composed"@ {
        Some(GraphType::Composed)
    } else {
        None
    }
}

/// The event type a subject segment names.
pub open spec fn event_type_named(s: Seq<char>) -> Option<EventType> {
    if s == "created"@ {
        Some(EventType::Created)
    } else if s == "updated"@ {
        Some(EventType::Updated)
    } else if s == "deleted"@ {
        Some(EventType::Deleted)
    } else if s == "node_added"@ {
        Some(EventType::NodeAdded)
    } else if s == "node_removed"@ {
        Some(EventType::NodeRemoved)
    } else if s == "edge_added"@ {
        Some(EventType::EdgeAdded)
    } else if s == "edge_removed"@ {
        Some(EventType::EdgeRemoved)
    } else if s == "state_changed"@ {
        Some(EventType::StateChanged)
    } else {
        None
    }
}

/// The subject of an event: `cim.graph.{type}.{aggregate}.{event}`.
pub open spec fn event_subject(t: GraphType, id: Uuid, e: EventType) -> Seq<char> {
    "cim.graph."@ + graph_segment(t) + "."@ + uuid_text(id.0) + "."@ + event_segment(e)
}

/// The subject of an event of a graph.
pub fn build_event_subject(graph_type: GraphType, aggregate_id: Uuid, event_type: EventType) -> (s: String)
    ensures
        s@ == event_subject(graph_type, aggregate_id, event_type),
{
    let mut s = String::from_str("cim.graph.");
    s.append(graph_type.as_str());
    s.append(".");
    s.append(aggregate_id.to_string().as_str());
    s.append(".");
    s.append(event_type.as_str());
    proof { reveal_strlit("cim.graph."); reveal_strlit("."); }
    s
}

/// The pattern of every event of one graph: `cim.graph.{type}.{aggregate}.*`.
pub fn build_graph_subscription(graph_type: GraphType, aggregate_id: Uuid) -> (s: String)
    ensures
        s@ == "cim.graph."@ + graph_segment(graph_type) + "."@ + uuid_text(aggregate_id.0) + ".*"@,
{
    let mut s = String::from_str("cim.graph.");
    s.append(graph_type.as_str());
    s.append(".");
    s.append(aggregate_id.to_string().as_str());
    s.append(".*");
    proof { reveal_strlit("cim.graph."); reveal_strlit("."); reveal_strlit(".*"); }
    s
}

/// The pattern of every event of a graph type: `cim.graph.{type}.>`.
pub fn build_type_subscription(graph_type: GraphType) -> (s: String)
    ensures
        s@ == "cim.graph."@ + graph_segment(graph_type) + ".>"@,
{
    let mut s = String::from_str("cim.graph.");
    s.append(graph_type.as_str());
    s.append(".>");
    proof { reveal_strlit("cim.graph."); reveal_strlit(".>"); }
    s
}

/// The pattern of every graph event: `cim.graph.>`.
pub fn build_all_events_subscription() -> (s: String)
    ensures
        s@ == "cim.graph.>"@,
{
    String::from_str("cim.graph.>")
}

/// What parsing the segments of a subject answers, given what parsing the
/// aggregate segment as a UUID gave.
pub open spec fn subject_parse_answer(
    segs: Seq<Seq<char>>,
    id: Option<Uuid>,
    r: Result<(GraphType, Uuid, EventType), String>,
) -> bool {
    if segs.len() != 5 || segs[0] != "cim"@ || segs[1] != "graph"@ {
        r matches Err(m) && m@ == "Invalid subject format"@
    } else {
        match graph_type_named(segs[2]) {
            None => r matches Err(m) && m@ == "Unknown graph type"@,
            Some(t) => match id {
                None => r matches Err(m) && m@ == "Invalid UUID in subject"@,
                Some(u) => match event_type_named(segs[4]) {
                    None => r matches Err(m) && m@ == "Unknown event type"@,
                    Some(e) => r == Ok::<(GraphType, Uuid, EventType), String>((t, u, e)),
                },
            },
        }
    }
}

/// The graph type named by a subject segment.
fn graph_type_of(s: &str) -> (r: Option<GraphType>)
    ensures
        r == graph_type_named(s@),
{
    proof {
        reveal_strlit("ipld"); reveal_strlit("context"); reveal_strlit("workflow");
        reveal_strlit("concept"); reveal_strlit("composed");
    }
    if str_eq(s, "ipld") {
        Some(GraphType::Ipld)
    } else if str_eq(s, "context") {
        Some(GraphType::Context)
    } else if str_eq(s, "workflow") {
        Some(GraphType::Workflow)
    } else if str_eq(s, "concept") {
        Some(GraphType::Concept)
    } else if str_eq(s, "composed") {
        Some(GraphType::Composed)
    } else {
        None
    }
}

/// The event type named by a subject segment.
fn event_type_of(s: &str) -> (r: Option<EventType>)
    ensures
        r == event_type_named(s@),
{
    proof {
        reveal_strlit("created"); reveal_strlit("updated"); reveal_strlit("deleted");
        reveal_strlit("node_added"); reveal_strlit("node_removed"); reveal_strlit("edge_added");
        reveal_strlit("edge_removed"); reveal_strlit("state_changed");
    }
    if str_eq(s, "created") {
        Some(EventType::Created)
    } else if str_eq(s, "updated") {
        Some(EventType::Updated)
    } else if str_eq(s, "deleted") {
        Some(EventType::Deleted)
    } else if str_eq(s, "node_added") {
        Some(EventType::NodeAdded)
    } else if str_eq(s, "node_removed") {
        Some(EventType::NodeRemoved)
    } else if str_eq(s, "edge_added") {
        Some(EventType::EdgeAdded)
    } else if str_eq(s, "edge_removed") {
        Some(EventType::EdgeRemoved)
    } else if str_eq(s, "state_changed") {
        Some(EventType::StateChanged)
    } else {
        None
    }
}

/// Decodes the segments of an event subject, given what parsing its
/// aggregate segment (the fourth) as a UUID gave.
pub fn decode_event_segments(segs: &Vec<String>, id: Option<Uuid>) -> (r: Result<(GraphType, Uuid, EventType), String>)
    ensures
        subject_parse_answer(texts_view(*segs), id, r),
{
    proof { reveal_strlit("cim"); reveal_strlit("graph"); }
    if segs.len() != 5 || !str_eq(segs[0].as_str(), "cim") || !str_eq(segs[1].as_str(), "graph") {
        return Err(String::from_str("Invalid subject format"));
    }
    let graph_type = match graph_type_of(segs[2].as_str()) {
        Some(t) => t,
        None => return Err(String::from_str("Unknown graph type")),
    };
    let aggregate_id = match id {
        Some(u) => u,
        None => return Err(String::from_str("Invalid UUID in subject")),
    };
    let event_type = match event_type_of(segs[4].as_str()) {
        Some(e) => e,
        None => return Err(String::from_str("Unknown event type")),
    };
    Ok((graph_type, aggregate_id, event_type))
}

/// The segments of an event subject are its five parts, and each part names
/// what it was built from.
pub proof fn lemma_event_subject_segments(t: GraphType, id: Uuid, e: EventType)
    ensures
        split_dots(event_subject(t, id, e)) == seq!["cim"@, "graph"@, graph_segment(t), uuid_text(id.0), event_segment(e)],
        graph_type_named(graph_segment(t)) == Some(t),
        event_type_named(event_segment(e)) == Some(e),
{
    reveal_strlit("cim.graph."); reveal_strlit("."); reveal_strlit("cim"); reveal_strlit("graph");
    reveal_strlit("ipld"); reveal_strlit("context"); reveal_strlit("workflow");
    reveal_strlit("concept"); reveal_strlit("composed");
    reveal_strlit("created"); reveal_strlit("updated"); reveal_strlit("deleted");
    reveal_strlit("node_added"); reveal_strlit("node_removed"); reveal_strlit("edge_added");
    reveal_strlit("edge_removed"); reveal_strlit("state_changed");
    lemma_uuid_text_has_no_dot(id.0);
    let g = graph_segment(t);
    let u = uuid_text(id.0);
    let v = event_segment(e);
    assert(dot_free("cim"@));
    assert(dot_free("graph"@));
    assert(dot_free(g));
    assert(dot_free(u));
    assert(dot_free(v));
    lemma_split_dots_append(Seq::empty(), "cim"@);
    lemma_split_dots_append("cim"@, "graph"@);
    lemma_split_dots_append("cim"@ + seq!['.'] + "graph"@, g);
    lemma_split_dots_append("cim"@ + seq!['.'] + "graph"@ + seq!['.'] + g, u);
    lemma_split_dots_append("cim"@ + seq!['.'] + "graph"@ + seq!['.'] + g + seq!['.'] + u, v);
    assert(event_subject(t, id, e) =~= "cim"@ + seq!['.'] + "graph"@ + seq!['.'] + g + seq!['.'] + u + seq!['.'] + v);
    assert(split_dots(event_subject(t, id, e)) =~= seq!["cim"@, "graph"@, g, u, v]);
    assert("updated"@[0] != "created"@[0]);
    assert("deleted"@[0] != "created"@[0] && "deleted"@[0] != "updated"@[0]);
    assert("node_added"@.len() != 7);
    assert("node_removed"@.len() != 7 && "node_removed"@.len() != "node_added"@.len());
    assert("edge_added"@[0] != "node_added"@[0] && "edge_added"@.len() != 7 && "edge_added"@.len() != "node_removed"@.len());
    assert("edge_removed"@[0] != "node_removed"@[0] && "edge_removed"@.len() != 7 && "edge_removed"@.len() != "node_added"@.len());
    assert("state_changed"@.len() != 7 && "state_changed"@.len() != 10 && "state_changed"@.len() != 12);
    assert("context"@[3] != "concept"@[3]);
    assert("composed"@[2] != "concept"@[2]);
}

/// Parses an event subject, `cim.graph.{type}.{aggregate}.{event}`, back
/// into its graph type, aggregate and event type. The subject built for a
/// graph type, aggregate and event type parses back into them.
pub fn parse_event_subject(subject: &str) -> (r: Result<(GraphType, Uuid, EventType), String>)
    ensures
        forall|t: GraphType, u: Uuid, e: EventType| #[trigger] event_subject(t, u, e) == subject@ ==>
            r == Ok::<(GraphType, Uuid, EventType), String>((t, u, e)),
        subject_parse_answer(split_dots(subject@),
            if split_dots(subject@).len() == 5 {
                match uuid_parse_result(split_dots(subject@)[3]) {
                    Some(v) => Some(Uuid(v)),
                    None => None,
                }
            } else {
                None
            },
            r),
{
    let segs = split_on_dots(subject);
    let id = if segs.len() == 5 { Uuid::parse_str(segs[3].as_str()) } else { None };
    let r = decode_event_segments(&segs, id);
    proof {
        reveal_strlit("cim"); reveal_strlit("graph");
        assert forall|t: GraphType, u: Uuid, e: EventType| #[trigger] event_subject(t, u, e) == subject@ implies
            r == Ok::<(GraphType, Uuid, EventType), String>((t, u, e)) by {
            lemma_event_subject_segments(t, u, e);
            assert(texts_view(segs)[3] == segs@[3]@);
            assert(segs@[3]@ == uuid_text(u.0));
        }
    }
    r
}

} // verus!
