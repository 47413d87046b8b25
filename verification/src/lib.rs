//! An in-process client for reporting events to an error tracking service.
//!
//! Application code reports messages and exceptions; the crate enriches them
//! with the ambient scope (tags, user, contexts, breadcrumb trail) and places
//! them on a bounded delivery queue, from which a worker sends them.
//!
//! The crate does no input or output and keeps no hidden state. The state of
//! a process is a [`Registry`] of clients; the state of an execution context
//! is a [`ScopeStack`]. The caller passes both to the functions that need
//! them, together with the time. What a function returns and changes is
//! stated in its contract, and every function is verified against it.
//!
//! - [`protocol`]: the event model.
//! - [`scope`]: scopes, the scope stack and its guards.
//! - [`client`]: the client, its options and the capture of events.
//! - [`registry`]: which client an execution context reports to.
//! - [`transport`]: the delivery queue and its retry rules.
//! - [`integrations`]: the transforms that a client applies to events.
//! - [`sampling`]: the seeded draws that decide which events are kept.
//! - [`dsn`]: the address of the service.
//! - [`converters`]: log records as events and breadcrumbs.
//! - [`strmap`], [`views`]: the map and the helpers that the models share.

pub mod client;
pub mod converters;
pub mod dsn;
pub mod integrations;
pub mod protocol;
pub mod registry;
pub mod sampling;
pub mod scope;
pub mod strmap;
pub mod transport;
pub mod views;

pub use crate::client::{Client, ClientOptions};
pub use crate::dsn::{ConfigurationError, Dsn};
pub use crate::protocol::{Breadcrumb, Context, Event, EventId, JsonValue, Level, User};
pub use crate::registry::{
    add_breadcrumb, bind_client, capture_event, capture_message, current_client,
    with_client_and_scope, ClientId, Registry,
};
pub use crate::scope::{push_scope, Scope, ScopeGuard, ScopeStack};
pub use crate::transport::Transport;
