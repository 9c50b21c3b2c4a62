//! Event schemas, command handlers and stream subjects.

pub mod graph_events;
pub mod command_handlers;
pub mod payload_json;
pub mod subjects;

pub use self::graph_events::{
    GraphEvent, EventPayload, GenericPayload, IpldPayload, ContextPayload, WorkflowPayload,
    ConceptPayload, ComposedPayload, GraphCommand, IpldCommand, ContextCommand, WorkflowCommand,
    ConceptCommand, ComposedCommand, event_to_nats_headers,
};
pub use self::command_handlers::{
    CommandHandler, GenericCommandHandler, IpldCommandHandler, ContextCommandHandler,
    WorkflowCommandHandler, ConceptCommandHandler, ComposedCommandHandler,
};
pub use self::subjects::{
    GRAPH_ROOT, GraphType, EventType, build_event_subject, build_graph_subscription,
    build_type_subscription, build_all_events_subscription, parse_event_subject,
};
