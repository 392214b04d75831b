//! A delivery engine for network sinks: capped exponential backoff, the
//! connector's reconnect decisions, the single-connection service state
//! machine, counter normalization, batching, incremental request building
//! and event finalization, plus queries over configuration schemas. Every
//! item here is plain computation; the runtime (sockets, timers, tasks, files)
//! drives it from outside.
mod backoff;
mod batcher;
mod connector;
mod driver;
mod normalizer;
mod request_builder;
mod schema;
mod service;

pub use backoff::{backoff_delay, lemma_backoff_capped_and_monotone, pow_nat, ExponentialBackoff};
pub use batcher::{all_fit, flatten, lemma_batches_bounded_and_ordered, total_bytes, Batcher};
pub use connector::{
    healthcheck_outcome, ConnectDecision, HostAndPort, IpAddress, ReconnectLoop, SocketAddress,
    TcpConnector, TcpConnectorConfig, TcpError, RECONNECT_BASE_MS, RECONNECT_FACTOR,
    RECONNECT_MAX_MS,
};
pub use driver::{
    can_resolve, complete_request, drop_failed, lemma_batch_settles_every_event,
    lemma_resolution_is_final, resolved, settle, settles,
    DeliveryReport, EventStatus, FinalizeError, FinalizerTable, Outcome,
};
pub use normalizer::{baseline, delta, Counter, CounterKind, Normalizer};
pub use request_builder::{
    build_from, build_requests, build_spec, built_consistent, built_view, close_open, covered,
    covered_all, finalizers_of, lemma_build_accounts_every_event, BuildError, BuiltView,
    EncodeFailure, EncodedEvent, Request,
};
pub use schema::{
    attr_matches, attr_view, attribute_matches, attribute_of, attribute_readable, attributes_of,
    attrs_view, component_kind_named, component_of, flag_of, holds_string, instance_types_view,
    lookup, matching, object_matches, query_error_text, required_value, schema_error_view,
    schema_matches, type_detectable, type_kind, ComponentSchema, ComponentType, CustomAttribute,
    InstanceType, Metadata, MetadataValue, OneOrMany, QueryError, QueryableSchema, RootSchema,
    SchemaEntry, SchemaError, SchemaObject, SchemaQuerier, SchemaQueryBuilder, SchemaType,
    SimpleSchema, Subschemas, TypeKind, COMPONENT_NAME_KEY, COMPONENT_TYPE_KEY,
};
pub use service::{
    finish_send, kind_of, lemma_failed_send_reconnects, next_phase, phase_of, trace, EventKind,
    Phase, Readiness, ServiceEvent, TcpServiceState,
};
