//! The registry of clients: which client each execution context reports to.
//!
//! A registry owns its clients and hands out identifiers for them. An
//! execution context, named by a number of the caller's choice, reports to
//! the client that was bound for it, and where none was, to the default: the
//! client of the first binding that was made at all.

use crate::client::{after_capture, is_random_id, random_event_id, Client, ClientView};
use crate::protocol::{blank_event, Breadcrumb, Event, EventId, EventView, Level};
use crate::scope::{effective, Scope, ScopeStack, ScopeView};
use crate::views::{keep_last, views};
use std::collections::HashMap;
use vstd::prelude::*;

verus! {

broadcast use vstd::std_specs::hash::group_hash_axioms;

/// Identifier of a client of a registry.
#[derive(Clone, Copy, Debug, PartialEq, Eq, Structural)]
pub struct ClientId {
    pub slot: usize,
}

/// The state of a registry.
pub ghost struct RegistryView {
    /// The clients, each at the slot that its identifier names.
    pub clients: Seq<ClientView>,
    /// The client that contexts without a binding of their own report to.
    pub default: Option<ClientId>,
    /// The bindings of the contexts that have one of their own.
    pub bindings: Map<u64, ClientId>,
}

/// The clients of a process and the bindings of its execution contexts.
#[derive(Debug)]
pub struct Registry {
    clients: Vec<Client>,
    default: Option<ClientId>,
    bindings: HashMap<u64, ClientId>,
}

impl View for Registry {
    type V = RegistryView;

    closed spec fn view(&self) -> RegistryView {
        RegistryView {
            clients: views(self.clients@),
            default: self.default,
            bindings: self.bindings@,
        }
    }
}

/// The client that `context` reports to: the one bound for it, else the
/// default. Nothing where this names no client of the registry.
pub open spec fn resolved(registry: RegistryView, context: u64) -> Option<ClientId> {
    let bound = if registry.bindings.contains_key(context) {
        Some(registry.bindings[context])
    } else {
        registry.default
    };
    match bound {
        Some(id) => if id.slot < registry.clients.len() {
            bound
        } else {
            None
        },
        None => None,
    }
}

/// The registry after `client` was bound for `context`: the binding of the
/// context is replaced, and where there was no default yet the client
/// becomes the default. A client that the registry does not have is not
/// bound.
pub open spec fn after_bind(registry: RegistryView, context: u64, client: ClientId) -> RegistryView {
    if client.slot < registry.clients.len() {
        RegistryView {
            bindings: registry.bindings.insert(context, client),
            default: if registry.default is None {
                Some(client)
            } else {
                registry.default
            },
            ..registry
        }
    } else {
        registry
    }
}

/// The last binding of a context wins, and a binding leaves the other
/// contexts alone: a context with a binding of its own keeps its client, and
/// a context without one keeps the default, which is the new client only
/// where there was no default before.
pub proof fn lemma_binding(registry: RegistryView, context: u64, client: ClientId, other: u64)
    requires
        client.slot < registry.clients.len(),
        other != context,
    ensures
        resolved(after_bind(registry, context, client), context) == Some(client),
        registry.bindings.contains_key(other) || registry.default is Some ==> resolved(
            after_bind(registry, context, client),
            other,
        ) == resolved(registry, other),
        !registry.bindings.contains_key(other) && registry.default is None ==> resolved(
            after_bind(registry, context, client),
            other,
        ) == Some(client),
{
}

impl Registry {
    /// A registry without clients and without bindings.
    pub fn new() -> (r: Registry)
        ensures
            r@ == (RegistryView { clients: Seq::empty(), default: None, bindings: Map::empty() }),
    {
        let r = Registry { clients: Vec::new(), default: None, bindings: HashMap::new() };
        assert(r@.clients =~= Seq::empty());
        r
    }

    /// Takes a client into the registry and returns its identifier. No
    /// context reports to the client before it is bound.
    pub fn register(&mut self, client: Client) -> (id: ClientId)
        ensures
            id.slot == old(self)@.clients.len(),
            final(self)@ == (RegistryView {
                clients: old(self)@.clients.push(client@),
                ..old(self)@
            }),
    {
        let id = ClientId { slot: self.clients.len() };
        self.clients.push(client);
        assert(views(self.clients@) =~= views(old(self).clients@).push(client@));
        id
    }

    /// The client that an identifier names, for reading.
    pub fn client(&self, id: ClientId) -> (r: Option<&Client>)
        ensures
            r.is_some() == (id.slot < self@.clients.len()),
            r matches Some(c) ==> c@ == self@.clients[id.slot as int],
    {
        if id.slot < self.clients.len() {
            Some(&self.clients[id.slot])
        } else {
            None
        }
    }

    /// The client that an identifier names, for the worker that sends what
    /// is in its queue. No other client and no binding changes.
    pub fn client_mut(&mut self, id: ClientId) -> (r: Option<&mut Client>)
        ensures
            r.is_some() == (id.slot < old(self)@.clients.len()),
            r is None ==> final(self)@ == old(self)@,
            r matches Some(c) ==> c@ == old(self)@.clients[id.slot as int] && final(self)@ == (
            RegistryView {
                clients: old(self)@.clients.update(id.slot as int, final(c)@),
                ..old(self)@
            }),
    {
        if id.slot < self.clients.len() {
            assert forall|c: Client|
                #[trigger] views(self.clients@.update(id.slot as int, c)) == views(
                    self.clients@,
                ).update(id.slot as int, c@) by {
            }
            Some(&mut self.clients[id.slot])
        } else {
            None
        }
    }
}

/// Binds a client for an execution context, in place of the binding that
/// the context had. The first client that is bound at all also becomes the
/// default. Returns whether the registry has the client.
pub fn bind_client(registry: &mut Registry, context: u64, client: ClientId) -> (bound: bool)
    ensures
        bound == (client.slot < old(registry)@.clients.len()),
        final(registry)@ == after_bind(old(registry)@, context, client),
{
    if client.slot < registry.clients.len() {
        let _ = registry.bindings.insert(context, client);
        if registry.default.is_none() {
            registry.default = Some(client);
        }
        true
    } else {
        false
    }
}

/// The client that an execution context reports to, if there is one.
pub fn current_client(registry: &Registry, context: u64) -> (r: Option<ClientId>)
    ensures
        r == resolved(registry@, context),
{
    let bound = match registry.bindings.get(&context) {
        Some(id) => Some(*id),
        None => registry.default,
    };
    match bound {
        Some(id) => if id.slot < registry.clients.len() {
            bound
        } else {
            None
        },
        None => None,
    }
}

/// The registry after `event` was captured in `context`, whose scope stack
/// has the frames `frames`, and the identifier that the capture returns.
/// Without a client for the context nothing changes and nothing is
/// returned. Else the client of the context captures the event, with the
/// scope that the frames amount to.
pub open spec fn after_capture_in(
    registry: RegistryView,
    context: u64,
    frames: Seq<ScopeView>,
    event: EventView,
    fresh_id: EventId,
    now: u64,
) -> (RegistryView, Option<EventId>) {
    match resolved(registry, context) {
        None => (registry, None),
        Some(id) => {
            let client = registry.clients[id.slot as int];
            let scope = effective(frames, client.max_breadcrumbs);
            let captured = after_capture(client, event, Some(scope), fresh_id, now);
            (
                RegistryView {
                    clients: registry.clients.update(id.slot as int, captured.0),
                    ..registry
                },
                captured.1,
            )
        },
    }
}

/// Captures an event in an execution context, with `fresh_id` as the
/// identifier that the event gets where it has none.
pub fn capture_event_as(
    registry: &mut Registry,
    context: u64,
    stack: &ScopeStack,
    event: Event,
    fresh_id: EventId,
    now: u64,
) -> (r: Option<EventId>)
    ensures
        (final(registry)@, r) == after_capture_in(
            old(registry)@,
            context,
            stack@,
            event@,
            fresh_id,
            now,
        ),
{
    match current_client(registry, context) {
        None => None,
        Some(id) => {
            let ghost before = registry.clients@;
            let scope = stack.effective_scope(registry.clients[id.slot].max_breadcrumbs());
            let r = registry.clients[id.slot].capture_event_as(event, Some(&scope), fresh_id, now);
            assert(views(registry.clients@) =~= views(before).update(
                id.slot as int,
                registry.clients@[id.slot as int]@,
            ));
            r
        },
    }
}

/// Captures an event in an execution context: the scope that the stack of
/// the context amounts to is merged into the event, and the client of the
/// context works on it and queues it. Returns the identifier of the event
/// where it was queued. Where the context has no client, nothing is
/// returned and nothing is queued.
pub fn capture_event(
    registry: &mut Registry,
    context: u64,
    stack: &ScopeStack,
    event: Event,
    now: u64,
) -> (r: Option<EventId>)
    ensures
        resolved(old(registry)@, context) is None ==> r is None && final(registry)@ == old(
            registry,
        )@,
        exists|fresh_id: EventId|
            is_random_id(fresh_id) && (final(registry)@, r) == #[trigger] after_capture_in(
                old(registry)@,
                context,
                stack@,
                event@,
                fresh_id,
                now,
            ),
{
    if current_client(registry, context).is_none() {
        assert((registry@, None::<EventId>) == after_capture_in(
            registry@,
            context,
            stack@,
            event@,
            EventId { value: 0x4000_8000_0000_0000_0000 },
            now,
        ));
        assert(is_random_id(EventId { value: 0x4000_8000_0000_0000_0000 })) by (bit_vector);
        return None;
    }
    let fresh_id = random_event_id();
    capture_event_as(registry, context, stack, event, fresh_id, now)
}

/// The event that stands for a message.
pub open spec fn message_event(text: Seq<char>, level: Level, now: u64) -> EventView {
    EventView { message: Some(text), level, ..blank_event(now) }
}

/// Captures a message of the given level in an execution context, as
/// `capture_event` captures the event that holds nothing but the message.
pub fn capture_message(
    registry: &mut Registry,
    context: u64,
    stack: &ScopeStack,
    text: &str,
    level: Level,
    now: u64,
) -> (r: Option<EventId>)
    ensures
        resolved(old(registry)@, context) is None ==> r is None && final(registry)@ == old(
            registry,
        )@,
        exists|fresh_id: EventId|
            is_random_id(fresh_id) && (final(registry)@, r) == #[trigger] after_capture_in(
                old(registry)@,
                context,
                stack@,
                message_event(text@, level, now),
                fresh_id,
                now,
            ),
{
    let mut event = Event::new(now);
    event.message = Some(text.to_owned());
    event.level = level;
    capture_event(registry, context, stack, event, now)
}

/// Without a client for the context a capture changes nothing: no client
/// changes, so no queue does, and nothing is returned.
pub proof fn lemma_capture_without_client(
    registry: RegistryView,
    context: u64,
    frames: Seq<ScopeView>,
    event: EventView,
    fresh_id: EventId,
    now: u64,
)
    requires
        resolved(registry, context) is None,
    ensures
        after_capture_in(registry, context, frames, event, fresh_id, now) == (
            registry,
            None::<EventId>,
        ),
{
}

/// Adds a breadcrumb to the top scope of an execution context. The trail
/// keeps as many breadcrumbs as the client of the context allows. Where the
/// context has no client the breadcrumb is not recorded.
pub fn add_breadcrumb(
    registry: &Registry,
    context: u64,
    stack: &mut ScopeStack,
    breadcrumb: Breadcrumb,
)
    ensures
        old(stack)@.len() >= 1,
        final(stack)@ == (match resolved(registry@, context) {
            Some(id) => old(stack)@.update(
                old(stack)@.len() - 1,
                ScopeView {
                    breadcrumbs: keep_last(
                        old(stack)@.last().breadcrumbs.push(breadcrumb@),
                        registry@.clients[id.slot as int].max_breadcrumbs,
                    ),
                    ..old(stack)@.last()
                },
            ),
            None => old(stack)@,
        }),
{
    match current_client(registry, context) {
        Some(id) => {
            let cap = registry.clients[id.slot].max_breadcrumbs();
            stack.top_mut().add_breadcrumb(breadcrumb, cap);
        },
        None => {
            proof {
                stack.lemma_has_bottom();
            }
        },
    }
}

/// Calls `f` with the client of an execution context and the scope that
/// the stack of the context amounts to. Both are handed out for reading: the
/// scope is a copy. Where the context has no client, `f` is not called and
/// the default value of the result type is returned.
pub fn with_client_and_scope<F, R>(
    registry: &Registry,
    context: u64,
    stack: &ScopeStack,
    f: F,
) -> (r: R) where F: FnOnce(&Client, &Scope) -> R, R: Default
    requires
        forall|client: &Client, scope: &Scope|
            resolved(registry@, context) matches Some(id) && client@ == registry@.clients[id.slot as int]
                && scope@ == effective(stack@, client@.max_breadcrumbs) ==> call_requires(
                f,
                (client, scope),
            ),
    ensures
        match resolved(registry@, context) {
            Some(id) => exists|client: &Client, scope: &Scope|
                client@ == registry@.clients[id.slot as int] && scope@ == effective(
                    stack@,
                    client@.max_breadcrumbs,
                ) && call_ensures(f, (client, scope), r),
            None => call_ensures(R::default, (), r),
        },
{
    match current_client(registry, context) {
        Some(id) => {
            let client = &registry.clients[id.slot];
            let scope = stack.effective_scope(client.max_breadcrumbs());
            f(client, &scope)
        },
        None => R::default(),
    }
}

} // verus!
